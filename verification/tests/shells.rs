use novalyn::shells::Shell;
use std::str::FromStr;

#[test]
fn test_shell_from_str() {
    assert_eq!(<Shell as FromStr>::from_str("bash"), Ok(Shell::Bash));
    assert_eq!(<Shell as FromStr>::from_str("zsh"), Ok(Shell::Zsh));
    assert_eq!(<Shell as FromStr>::from_str("fish"), Ok(Shell::Fish));
    assert_eq!(<Shell as FromStr>::from_str("elvish"), Ok(Shell::Elvish));
    assert_eq!(
        <Shell as FromStr>::from_str("powershell"),
        Ok(Shell::PowerShell)
    );
    assert_eq!(<Shell as FromStr>::from_str("nushell"), Ok(Shell::Nushell));

    assert!(<Shell as FromStr>::from_str("invalid").is_err());
}

#[test]
fn test_shell_display() {
    assert_eq!(Shell::Bash.to_string(), "bash");
    assert_eq!(Shell::Zsh.to_string(), "zsh");
    assert_eq!(Shell::Fish.to_string(), "fish");
    assert_eq!(Shell::Elvish.to_string(), "elvish");
    assert_eq!(Shell::PowerShell.to_string(), "powershell");
    assert_eq!(Shell::Nushell.to_string(), "nushell");
}

#[test]
fn test_shell_from_shell_path() {
    assert_eq!(Shell::from_shell_path("/bin/bash"), Some(Shell::Bash));
    assert_eq!(Shell::from_shell_path("/usr/bin/zsh"), Some(Shell::Zsh));
    assert_eq!(
        Shell::from_shell_path("/usr/local/bin/fish"),
        Some(Shell::Fish)
    );
    assert_eq!(Shell::from_shell_path("/opt/elvish"), Some(Shell::Elvish));
    assert_eq!(
        Shell::from_shell_path("powershell"),
        Some(Shell::PowerShell)
    );
    assert_eq!(
        Shell::from_shell_path("powershell_ise"),
        Some(Shell::PowerShell)
    );
    assert_eq!(Shell::from_shell_path("/usr/bin/nu"), Some(Shell::Nushell));
    assert_eq!(
        Shell::from_shell_path("/usr/bin/nushell"),
        Some(Shell::Nushell)
    );

    assert_eq!(Shell::from_shell_path("/bin/unknown"), None);
}

#[test]
fn shell_names_in_any_case() {
    assert_eq!(Shell::parse("BASH"), Ok(Shell::Bash));
    assert_eq!(Shell::parse("PowerShell"), Ok(Shell::PowerShell));
    assert_eq!(Shell::parse("nu"), Err("invalid variant: nu".to_string()));
    assert_eq!(Shell::parse(""), Err("invalid variant: ".to_string()));
}

#[test]
fn shell_from_stem_and_extension() {
    assert_eq!(Shell::from_stem("powershell_ise"), Some(Shell::PowerShell));
    assert_eq!(Shell::from_stem("Bash"), None);
    assert_eq!(Shell::from_shell_path("C:/tools/powershell.exe"), Some(Shell::PowerShell));
    assert_eq!(Shell::from_shell_path("/bin/bash/"), Some(Shell::Bash));
    assert_eq!(Shell::from_shell_path(""), None);
    assert_eq!(Shell::from_shell_path("/bin/.."), None);
}

#[test]
fn shell_names_fold_as_the_standard_library_folds_them() {
    let names = ["bash", "elvish", "fish", "powershell", "zsh", "nushell"];
    for c in '\0'..=char::MAX {
        for text in [format!("{}ash", c), format!("zs{}", c), format!("fi{}h", c), format!("nu{}hell", c)] {
            let folded = text.to_lowercase();
            assert_eq!(Shell::parse(&text).is_ok(), names.contains(&folded.as_str()), "{:?}", text);
        }
    }
}

use clap::{Arg, ArgAction, Command};
use novalyn::cli_def::{command_table, global_args, ArgKind, ArgSpec};

fn to_arg(spec: &ArgSpec) -> Arg {
    let mut arg = Arg::new(spec.long).help(spec.help);
    arg = match spec.kind {
        ArgKind::Flag => arg.long(spec.long).action(ArgAction::SetTrue),
        ArgKind::Count => arg.long(spec.long).action(ArgAction::Count),
        ArgKind::Value => arg.long(spec.long).action(ArgAction::Set),
        ArgKind::Values => arg.long(spec.long).action(ArgAction::Append),
        ArgKind::Positional => arg.action(ArgAction::Set).required(true),
    };
    if let Some(c) = spec.short {
        arg = arg.short(c);
    }
    if !spec.value_name.is_empty() {
        arg = arg.value_name(spec.value_name);
    }
    arg
}

fn build_command() -> Command {
    let mut cmd = Command::new("novalyn")
        .about("Generate changelogs from conventional commits.")
        .subcommand_required(true);
    for spec in global_args().iter() {
        cmd = cmd.arg(to_arg(spec));
    }
    for sub in command_table().iter() {
        let mut c = Command::new(sub.name).about(sub.about);
        for spec in sub.args.iter() {
            c = c.arg(to_arg(spec));
        }
        cmd = cmd.subcommand(c);
    }
    cmd
}

#[test]
fn cli_cli_help_generates() {
    build_command().debug_assert();
}

#[test]
fn command_table_names_every_command() {
    let names: Vec<&str> = command_table().iter().map(|c| c.name).collect();
    assert_eq!(names, vec!["completions", "show", "generate", "release", "github"]);
}

#[test]
fn command_line_is_read() {
    let m = build_command()
        .try_get_matches_from(["novalyn", "-vv", "generate", "-w", "-e", "a", "-e", "b"])
        .unwrap();
    assert_eq!(m.get_count("verbose"), 2);
    let (name, sub) = m.subcommand().unwrap();
    assert_eq!(name, "generate");
    assert!(sub.get_flag("write"));
    let excluded: Vec<&String> = sub.get_many::<String>("exclude-author").unwrap().collect();
    assert_eq!(excluded.len(), 2);
}

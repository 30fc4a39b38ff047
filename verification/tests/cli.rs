use onefig::cli::{Cli, Command, Finish, Load, Plan};

#[test]
fn test_command_greets() {
    let cli = Cli { command: Command::Test };
    assert_eq!(cli.plan(), Plan { load: Load::Nothing, finish: Finish::Greet });
}

#[test]
fn compile_reads_a_script_and_writes_an_artifact() {
    let command = Command::Compile { script: "in.nf".to_string(), output: "out.nfb".to_string() };
    assert_eq!(command.plan(), Plan { load: Load::Script, finish: Finish::WriteArtifact });
}

#[test]
fn check_validates_a_script_or_a_binary() {
    let script = Command::Check { is_binary: false, file: "a".to_string() };
    let binary = Command::Check { is_binary: true, file: "a".to_string() };
    assert_eq!(script.plan(), Plan { load: Load::Script, finish: Finish::Validate });
    assert_eq!(binary.plan(), Plan { load: Load::Binary, finish: Finish::Validate });
}

#[test]
fn run_applies_a_binary_unless_told_it_is_a_script() {
    let binary = Command::Run { is_script: false, file: "a".to_string() };
    let script = Command::Run { is_script: true, file: "a".to_string() };
    assert_eq!(binary.plan(), Plan { load: Load::Binary, finish: Finish::Generate });
    assert_eq!(script.plan(), Plan { load: Load::Script, finish: Finish::Generate });
}

#[test]
fn search_reads_nothing() {
    let command = Command::Search { etc: true };
    assert_eq!(command.plan(), Plan { load: Load::Nothing, finish: Finish::Search { etc: true } });
}

#[test]
fn commands_name_the_files_they_read_and_write() {
    let compile = Command::Compile { script: "in.nf".to_string(), output: "out.nfb".to_string() };
    assert_eq!(compile.input(), Some(&"in.nf".to_string()));
    assert_eq!(compile.output(), Some(&"out.nfb".to_string()));
    let check = Command::Check { is_binary: true, file: "c.nfb".to_string() };
    assert_eq!(check.input(), Some(&"c.nfb".to_string()));
    assert_eq!(check.output(), None);
    let run = Command::Run { is_script: true, file: "r.nf".to_string() };
    assert_eq!(run.input(), Some(&"r.nf".to_string()));
    assert_eq!(run.output(), None);
    assert_eq!(Command::Test.input(), None);
    assert_eq!(Command::Search { etc: false }.input(), None);
    assert_eq!(Command::Search { etc: false }.output(), None);
}

use mngr::commands::Action;
use mngr::commands::Mode;
use mngr::commands::after_register;
use mngr::commands::mode_step;
use mngr::commands::overwrite_confirmed;
use mngr::ops::RemovalKey;

fn step(mode: Mode, input: &str) -> (Mode, Action) {
    mode_step(mode, &String::from(input))
}

#[test]
fn top_level_dispatch() {
    assert!(matches!(step(Mode::TopLevel, "exit"), (Mode::TopLevel, Action::Quit)));
    assert!(matches!(step(Mode::TopLevel, "E"), (Mode::TopLevel, Action::Quit)));
    assert!(matches!(step(Mode::TopLevel, "help"), (Mode::TopLevel, Action::ShowHelp)));
    assert!(matches!(step(Mode::TopLevel, "h"), (Mode::TopLevel, Action::ShowHelp)));
    assert!(matches!(step(Mode::TopLevel, "register"), (Mode::Register, Action::Nothing)));
    assert!(matches!(step(Mode::TopLevel, "r"), (Mode::Register, Action::Nothing)));
    assert!(matches!(step(Mode::TopLevel, "unregister"), (Mode::Unregister, Action::Nothing)));
    assert!(matches!(step(Mode::TopLevel, "ur"), (Mode::Unregister, Action::Nothing)));
    assert!(matches!(step(Mode::TopLevel, "list"), (Mode::TopLevel, Action::PrintList)));
    assert!(matches!(step(Mode::TopLevel, "update"), (Mode::Update, Action::Nothing)));
    assert!(matches!(step(Mode::TopLevel, "u"), (Mode::Update, Action::Nothing)));
    assert!(matches!(step(Mode::TopLevel, "dance"), (Mode::TopLevel, Action::ShowUnknownHint)));
}

#[test]
fn register_mode_dispatch() {
    assert!(matches!(step(Mode::Register, "exit"), (Mode::TopLevel, Action::Nothing)));
    assert!(matches!(step(Mode::Register, "e"), (Mode::TopLevel, Action::Nothing)));
    assert!(matches!(step(Mode::Register, "help"), (Mode::Register, Action::ShowModeHelp)));
    assert!(matches!(step(Mode::Register, ""), (Mode::Register, Action::ShowEmptyUrlHint)));
    assert!(matches!(step(Mode::Register, "two args"), (Mode::Register, Action::ShowArgError)));
    match step(Mode::Register, "https://github.com/acme/widget") {
        (Mode::Register, Action::DoRegister(url)) => {
            assert_eq!(url, "https://github.com/acme/widget");
        },
        _ => panic!("expected a registration action"),
    }
    // the register mode's exit alias is lowercase only
    assert!(matches!(step(Mode::Register, "E"), (Mode::Register, Action::DoRegister(_))));
}

#[test]
fn unregister_mode_dispatch() {
    assert!(matches!(step(Mode::Unregister, "exit"), (Mode::TopLevel, Action::Nothing)));
    assert!(matches!(step(Mode::Unregister, "help"), (Mode::Unregister, Action::ShowModeHelp)));
    assert!(matches!(step(Mode::Unregister, ""), (Mode::Unregister, Action::ShowArgError)));
    assert!(matches!(step(Mode::Unregister, "a b c"), (Mode::Unregister, Action::ShowArgError)));
    match step(Mode::Unregister, "widget") {
        (Mode::Unregister, Action::DoUnregister(RemovalKey::ByName(n))) => {
            assert_eq!(n, "widget");
        },
        _ => panic!("expected an unregistration by name"),
    }
    match step(Mode::Unregister, "-n widget") {
        (Mode::Unregister, Action::DoUnregister(RemovalKey::ByName(n))) => {
            assert_eq!(n, "widget");
        },
        _ => panic!("expected an unregistration by name"),
    }
    match step(Mode::Unregister, "-f widget.jar") {
        (Mode::Unregister, Action::DoUnregister(RemovalKey::ByFileName(f))) => {
            assert_eq!(f, "widget.jar");
        },
        _ => panic!("expected an unregistration by file name"),
    }
    assert!(matches!(step(Mode::Unregister, "-x widget"), (Mode::Unregister, Action::ShowModeHelp)));
}

#[test]
fn update_mode_dispatch() {
    assert!(matches!(step(Mode::Update, "exit"), (Mode::TopLevel, Action::Nothing)));
    assert!(matches!(step(Mode::Update, "#all"), (Mode::Update, Action::DoUpdateAll)));
    assert!(matches!(step(Mode::Update, "#!pre"), (Mode::Update, Action::DoUpdateStable)));
    assert!(matches!(step(Mode::Update, "#multi"), (Mode::UpdateMulti, Action::Nothing)));
    assert!(matches!(step(Mode::Update, "anything else"), (Mode::Update, Action::ShowModeHelp)));
}

#[test]
fn multi_mode_collects_names() {
    assert!(matches!(step(Mode::UpdateMulti, ""), (Mode::UpdateMulti, Action::PromptMultiNames)));
    match step(Mode::UpdateMulti, "foo, bar ,baz qux") {
        (Mode::Update, Action::DoUpdateNamed(names)) => {
            assert_eq!(names, vec!["foo", "bar", "bazqux"]);
        },
        _ => panic!("expected a named update"),
    }
}

#[test]
fn register_mode_leaves_on_success_only() {
    assert_eq!(after_register(true), Mode::TopLevel);
    assert_eq!(after_register(false), Mode::Register);
}

#[test]
fn overwrite_answer() {
    assert!(overwrite_confirmed(&String::from("0")));
    assert!(!overwrite_confirmed(&String::from("1")));
    assert!(!overwrite_confirmed(&String::from("")));
    assert!(!overwrite_confirmed(&String::from("no")));
}

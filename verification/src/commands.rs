//! The interactive command modes and their dispatch.
//!
//! The prompt is a finite state machine: the top level, and the register,
//! unregister, update and update/multi sub-modes.  `mode_step` maps the
//! current mode and one line of input to the next mode and the action to
//! perform; the caller runs the loop, performs the action's side effects and
//! prints.  Unrecognized input is never fatal: it re-prompts with the
//! state's help or hint.  Each mode's dispatch is
//! specified by a predicate (`spec_top_step` and friends) that mirrors the
//! order commands are tried in.

use vstd::prelude::*;

use crate::ops::RemovalKey;
use crate::text::remove_spaces;
use crate::text::spec_remove_spaces;
use crate::text::spec_split;
use crate::text::split_char;
use crate::text::str_eq;

verus! {

/// The interactive states.
#[derive(Clone, Copy, Debug, PartialEq, Eq, Structural)]
pub enum Mode {
    TopLevel,
    Register,
    Unregister,
    Update,
    UpdateMulti,
}

/// What one step of the prompt asks the caller to do.
#[derive(Debug)]
pub enum Action {
    /// Re-prompt, nothing else.
    Nothing,
    /// Leave the interactive loop.
    Quit,
    /// Print the top-level help page.
    ShowHelp,
    /// Print the top-level hint for unrecognized input.
    ShowUnknownHint,
    /// Print the current sub-mode's help lines.
    ShowModeHelp,
    /// Print the current sub-mode's invalid-arguments message and its help.
    ShowArgError,
    /// Print the empty-URL hint of the register mode, then its help.
    ShowEmptyUrlHint,
    /// Print every registered record.
    PrintList,
    /// Run a registration for this URL.
    DoRegister(String),
    /// Run an unregistration by this key.
    DoUnregister(RemovalKey),
    /// Update every registered plugin.
    DoUpdateAll,
    /// Update the plugins whose recorded release is stable.
    DoUpdateStable,
    /// Update the named plugins.
    DoUpdateNamed(Vec<String>),
    /// Ask again for the comma-separated name list.
    PromptMultiNames,
}

/// The top-level exit command or one of its aliases.
pub open spec fn word_exit_top(s: Seq<char>) -> bool {
    s == "exit"@ || s == "E"@ || s == "e"@
}

/// The top-level help command or one of its aliases.
pub open spec fn word_help_top(s: Seq<char>) -> bool {
    s == "help"@ || s == "H"@ || s == "h"@
}

/// The register command or one of its aliases.
pub open spec fn word_register(s: Seq<char>) -> bool {
    s == "register"@ || s == "R"@ || s == "r"@
}

/// The unregister command or one of its aliases.
pub open spec fn word_unregister(s: Seq<char>) -> bool {
    s == "unregister"@ || s == "UR"@ || s == "ur"@
}

/// The list command or one of its aliases.
pub open spec fn word_list(s: Seq<char>) -> bool {
    s == "list"@ || s == "L"@ || s == "l"@
}

/// The update command or one of its aliases.
pub open spec fn word_update(s: Seq<char>) -> bool {
    s == "update"@ || s == "U"@ || s == "u"@
}

/// A sub-mode's exit command or its alias.
pub open spec fn word_exit_sub(s: Seq<char>) -> bool {
    s == "exit"@ || s == "e"@
}

/// A sub-mode's help command or its alias.
pub open spec fn word_help_sub(s: Seq<char>) -> bool {
    s == "help"@ || s == "h"@
}

/// The comma-separated names of the update/multi prompt, spaces removed.
pub open spec fn spec_multi_names(s: Seq<char>) -> Seq<Seq<char>> {
    spec_split(s, ',').map_values(|t: Seq<char>| spec_remove_spaces(t))
}

/// The top-level dispatch: commands are tried in this order, and anything
/// else re-prompts with a hint.
pub open spec fn spec_top_step(s: Seq<char>, r: (Mode, Action)) -> bool {
    if word_exit_top(s) {
        r == (Mode::TopLevel, Action::Quit)
    } else if word_help_top(s) {
        r == (Mode::TopLevel, Action::ShowHelp)
    } else if word_register(s) {
        r == (Mode::Register, Action::Nothing)
    } else if word_unregister(s) {
        r == (Mode::Unregister, Action::Nothing)
    } else if word_list(s) {
        r == (Mode::TopLevel, Action::PrintList)
    } else if word_update(s) {
        r == (Mode::Update, Action::Nothing)
    } else {
        r == (Mode::TopLevel, Action::ShowUnknownHint)
    }
}

/// The register-mode dispatch: exactly one argument, which is an exit, a
/// help request, nothing, or the repository URL to register.
pub open spec fn spec_register_step(s: Seq<char>, r: (Mode, Action)) -> bool {
    let a = spec_split(s, ' ');
    if a.len() != 1 {
        r == (Mode::Register, Action::ShowArgError)
    } else if word_exit_sub(a[0]) {
        r == (Mode::TopLevel, Action::Nothing)
    } else if word_help_sub(a[0]) {
        r == (Mode::Register, Action::ShowModeHelp)
    } else if a[0].len() == 0 {
        r == (Mode::Register, Action::ShowEmptyUrlHint)
    } else {
        r.0 == Mode::Register && (r.1 matches Action::DoRegister(u) && u@ == a[0])
    }
}

/// The unregister-mode dispatch: one argument (an exit, a help request, or a
/// plugin name), or a `-n`/`-f` flag and its argument.
pub open spec fn spec_unregister_step(s: Seq<char>, r: (Mode, Action)) -> bool {
    let a = spec_split(s, ' ');
    if a.len() > 2 || a[0].len() == 0 {
        r == (Mode::Unregister, Action::ShowArgError)
    } else if a.len() == 1 {
        if word_exit_sub(a[0]) {
            r == (Mode::TopLevel, Action::Nothing)
        } else if word_help_sub(a[0]) {
            r == (Mode::Unregister, Action::ShowModeHelp)
        } else {
            r.0 == Mode::Unregister && (r.1 matches Action::DoUnregister(k) && (
            k matches RemovalKey::ByName(nm) && nm@ == a[0]))
        }
    } else {
        if a[0] == "-n"@ {
            r.0 == Mode::Unregister && (r.1 matches Action::DoUnregister(k) && (
            k matches RemovalKey::ByName(nm) && nm@ == a[1]))
        } else if a[0] == "-f"@ {
            r.0 == Mode::Unregister && (r.1 matches Action::DoUnregister(k) && (
            k matches RemovalKey::ByFileName(fm) && fm@ == a[1]))
        } else {
            r == (Mode::Unregister, Action::ShowModeHelp)
        }
    }
}

/// The update-mode dispatch: exit, one of the policy commands, or the
/// mode's help.
pub open spec fn spec_update_step(s: Seq<char>, r: (Mode, Action)) -> bool {
    if word_exit_top(s) {
        r == (Mode::TopLevel, Action::Nothing)
    } else if s == "#all"@ {
        r == (Mode::Update, Action::DoUpdateAll)
    } else if s == "#!pre"@ {
        r == (Mode::Update, Action::DoUpdateStable)
    } else if s == "#multi"@ {
        r == (Mode::UpdateMulti, Action::Nothing)
    } else {
        r == (Mode::Update, Action::ShowModeHelp)
    }
}

/// The update/multi dispatch: an empty line asks again, anything else is the
/// comma-separated name list, spaces removed.
pub open spec fn spec_multi_step(s: Seq<char>, r: (Mode, Action)) -> bool {
    if s.len() == 0 {
        r == (Mode::UpdateMulti, Action::PromptMultiNames)
    } else {
        r.0 == Mode::Update && (r.1 matches Action::DoUpdateNamed(v) && v.deep_view()
            == spec_multi_names(s))
    }
}

/// One step of the top-level prompt.
fn top_step(input: &String) -> (r: (Mode, Action))
    ensures
        spec_top_step(input@, r),
{
    let s = input.as_str();
    if str_eq(s, "exit") || str_eq(s, "E") || str_eq(s, "e") {
        (Mode::TopLevel, Action::Quit)
    } else if str_eq(s, "help") || str_eq(s, "H") || str_eq(s, "h") {
        (Mode::TopLevel, Action::ShowHelp)
    } else if str_eq(s, "register") || str_eq(s, "R") || str_eq(s, "r") {
        (Mode::Register, Action::Nothing)
    } else if str_eq(s, "unregister") || str_eq(s, "UR") || str_eq(s, "ur") {
        (Mode::Unregister, Action::Nothing)
    } else if str_eq(s, "list") || str_eq(s, "L") || str_eq(s, "l") {
        (Mode::TopLevel, Action::PrintList)
    } else if str_eq(s, "update") || str_eq(s, "U") || str_eq(s, "u") {
        (Mode::Update, Action::Nothing)
    } else {
        (Mode::TopLevel, Action::ShowUnknownHint)
    }
}

/// One step of the register prompt: one argument, the repository URL.
fn register_step(input: &String) -> (r: (Mode, Action))
    ensures
        spec_register_step(input@, r),
{
    let args = split_char(input.as_str(), ' ');
    if args.len() != 1 {
        return (Mode::Register, Action::ShowArgError);
    }
    let a0 = args[0].as_str();
    proof {
        assert(args.deep_view()[0] == args@[0]@);
    }
    if str_eq(a0, "exit") || str_eq(a0, "e") {
        (Mode::TopLevel, Action::Nothing)
    } else if str_eq(a0, "help") || str_eq(a0, "h") {
        (Mode::Register, Action::ShowModeHelp)
    } else if a0.is_empty() {
        (Mode::Register, Action::ShowEmptyUrlHint)
    } else {
        (Mode::Register, Action::DoRegister(args[0].clone()))
    }
}

/// One step of the unregister prompt: a name, `-n <name>` or
/// `-f <file name>`.
fn unregister_step(input: &String) -> (r: (Mode, Action))
    ensures
        spec_unregister_step(input@, r),
{
    let args = split_char(input.as_str(), ' ');
    proof {
        crate::text::lemma_split_len(input@, ' ');
        assert(args.deep_view()[0] == args@[0]@);
    }
    if args.len() > 2 || args[0].as_str().is_empty() {
        return (Mode::Unregister, Action::ShowArgError);
    }
    if args.len() == 1 {
        let a0 = args[0].as_str();
        if str_eq(a0, "exit") || str_eq(a0, "e") {
            (Mode::TopLevel, Action::Nothing)
        } else if str_eq(a0, "help") || str_eq(a0, "h") {
            (Mode::Unregister, Action::ShowModeHelp)
        } else {
            (Mode::Unregister, Action::DoUnregister(RemovalKey::ByName(args[0].clone())))
        }
    } else {
        proof {
            assert(args.deep_view()[1] == args@[1]@);
        }
        let a0 = args[0].as_str();
        if str_eq(a0, "-n") {
            (Mode::Unregister, Action::DoUnregister(RemovalKey::ByName(args[1].clone())))
        } else if str_eq(a0, "-f") {
            (Mode::Unregister, Action::DoUnregister(RemovalKey::ByFileName(args[1].clone())))
        } else {
            (Mode::Unregister, Action::ShowModeHelp)
        }
    }
}

/// One step of the update prompt: a policy, the multi sub-prompt, or exit.
fn update_step(input: &String) -> (r: (Mode, Action))
    ensures
        spec_update_step(input@, r),
{
    let s = input.as_str();
    if str_eq(s, "exit") || str_eq(s, "E") || str_eq(s, "e") {
        (Mode::TopLevel, Action::Nothing)
    } else if str_eq(s, "#all") {
        (Mode::Update, Action::DoUpdateAll)
    } else if str_eq(s, "#!pre") {
        (Mode::Update, Action::DoUpdateStable)
    } else if str_eq(s, "#multi") {
        (Mode::UpdateMulti, Action::Nothing)
    } else {
        (Mode::Update, Action::ShowModeHelp)
    }
}

/// One step of the update/multi prompt: the comma-separated names, spaces
/// removed; an empty line asks again.
fn multi_step(input: &String) -> (r: (Mode, Action))
    ensures
        spec_multi_step(input@, r),
{
    if input.as_str().is_empty() {
        return (Mode::UpdateMulti, Action::PromptMultiNames);
    }
    let parts = split_char(input.as_str(), ',');
    let ghost pv = parts.deep_view();
    let mut names: Vec<String> = Vec::new();
    let mut i: usize = 0;
    proof {
        assert(names.deep_view() =~~= pv.take(0).map_values(
            |t: Seq<char>| spec_remove_spaces(t),
        ));
    }
    while i < parts.len()
        invariant
            pv == parts.deep_view(),
            pv.len() == parts.len(),
            i <= parts.len(),
            names.deep_view() == pv.take(i as int).map_values(
                |t: Seq<char>| spec_remove_spaces(t),
            ),
        decreases parts.len() - i,
    {
        let ghost dv0 = names.deep_view();
        names.push(remove_spaces(parts[i].as_str()));
        proof {
            assert(names.deep_view() =~~= dv0.push(spec_remove_spaces(pv[i as int])));
            assert(names.deep_view() =~~= pv.take(i + 1).map_values(
                |t: Seq<char>| spec_remove_spaces(t),
            ));
        }
        i = i + 1;
    }
    proof {
        assert(pv.take(pv.len() as int) =~= pv);
    }
    (Mode::Update, Action::DoUpdateNamed(names))
}

/// One step of the interactive prompt: from the current mode and one line of
/// input to the next mode and the action to perform.
pub fn mode_step(mode: Mode, input: &String) -> (r: (Mode, Action))
    ensures
        mode is TopLevel ==> spec_top_step(input@, r),
        mode is Register ==> spec_register_step(input@, r),
        mode is Unregister ==> spec_unregister_step(input@, r),
        mode is Update ==> spec_update_step(input@, r),
        mode is UpdateMulti ==> spec_multi_step(input@, r),
{
    match mode {
        Mode::TopLevel => top_step(input),
        Mode::Register => register_step(input),
        Mode::Unregister => unregister_step(input),
        Mode::Update => update_step(input),
        Mode::UpdateMulti => multi_step(input),
    }
}

/// Where the register mode goes after an attempted registration: success
/// returns to the top level, failure re-prompts in the register mode.
pub fn after_register(success: bool) -> (r: Mode)
    ensures
        success ==> r == Mode::TopLevel,
        !success ==> r == Mode::Register,
{
    if success {
        Mode::TopLevel
    } else {
        Mode::Register
    }
}

/// Whether the collision prompt's answer confirms the destructive overwrite:
/// only `0` does.
pub fn overwrite_confirmed(input: &String) -> (r: bool)
    ensures
        r == (input@ == "0"@),
{
    str_eq(input.as_str(), "0")
}

} // verus!

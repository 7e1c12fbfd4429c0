//! What tmux tells of its panes, which of them are agents', and where a new one is made.
use vstd::prelude::*;
use vstd::string::*;

use crate::config::{variable, TmuxConfig};
use crate::directories::{is_plain_name, law_name_in_directory};
use crate::order::lemma_filter_contains;
use crate::path::components;
use crate::state::{fits, fitting, live_mappings, restored, MappingView, StateView};
use crate::text::{begins_with, first_position, joined_with, law_joined, lemma_first_position, split,
    texts, trimmed};
use crate::tmux::{agent_session, agent_window_name, counts_as_agent, inventory_of, is_safe_name,
    law_free_name_is_free, law_preferred_pane, law_sanitized_stays, pane_arguments, pane_with_id,
    parsed_window, parsed_windows, preferred_pane, sanitized, session_base, sessions, slug,
    window_in, CanonicalPaths, InventoryFault, Window, WindowView, SEP};

verus! {

/// Pieces without a separator come apart again as they were put together.
pub proof fn law_split_undoes_joining(pieces: Seq<Seq<char>>, separator: char)
    requires
        pieces.len() > 0,
        forall|k: int| 0 <= k < pieces.len() ==> !(#[trigger] pieces[k]).contains(separator),
    ensures
        split(joined_with(pieces, seq![separator]), separator) == pieces,
    decreases pieces.len(),
{
    let whole = joined_with(pieces, seq![separator]);
    let first = pieces[0];
    lemma_first_position(whole, separator);
    if pieces.len() == 1 {
        let position = first_position(whole, separator);
        if position < whole.len() {
            assert(first[position] == separator);
        }
        assert(pieces =~= seq![whole]);
    } else {
        let rest = pieces.skip(1);
        let behind = joined_with(rest, seq![separator]);
        law_joined(seq![first], rest, first, seq![separator]);
        assert(pieces =~= seq![first] + rest);
        assert(whole =~= first + seq![separator] + behind);
        assert forall|k: int| 0 <= k < rest.len() implies !(#[trigger] rest[k]).contains(
            separator,
        ) by {
            assert(rest[k] == pieces[k + 1]);
        }
        law_split_undoes_joining(rest, separator);
        let position = first_position(whole, separator);
        let at = first.len() as int;
        assert(whole[at] == separator);
        if position < at {
            assert(first[position] == separator);
        }
        assert(position == at);
        assert(whole.take(at) =~= first);
        assert(whole.skip(at + 1) =~= behind);
    }
}

/// A pane is read as it was written: each field comes out in its place, and an empty mark counts as
/// none.
pub proof fn law_pane_is_read(fields: Seq<Seq<char>>)
    requires
        forall|k: int| 0 <= k < fields.len() ==> !(#[trigger] fields[k]).contains(SEP),
        fields.len() > 0,
    ensures
        ({
            let line = joined_with(fields, seq![SEP]);
            match parsed_window(line) {
                Ok(window) => {
                    let mark = |field: Seq<char>|
                        if field.len() == 0 {
                            None
                        } else {
                            Some(field)
                        };
                    &&& fields.len() == 11
                    &&& window.session == fields[0] && window.window_id == fields[2]
                    &&& window.window_name == fields[3] && window.pane_id == fields[4]
                    &&& window.command == fields[6] && window.cwd == fields[7]
                    &&& window.harness_id == mark(fields[8]) && window.thread_id == mark(fields[9])
                        && window.chat_title == mark(fields[10])
                },
                Err(count) => fields.len() != 11 && count == fields.len(),
            }
        }),
{
    law_split_undoes_joining(fields, SEP);
}

/// All panes are read if and only if each row tells of one; then each row's pane stands in the place
/// of the row.
pub proof fn law_rows_are_read(rows: Seq<Seq<char>>)
    ensures
        parsed_windows(rows) is Ok <==> forall|k: int|
            0 <= k < rows.len() ==> parsed_window(#[trigger] rows[k]) is Ok,
        parsed_windows(rows) matches Ok(windows) ==> windows.len() == rows.len() && forall|k: int|
            0 <= k < rows.len() ==> parsed_window(rows[k]) == Ok::<WindowView, nat>(
                #[trigger] windows[k],
            ),
    decreases rows.len(),
{
    if rows.len() > 0 {
        let rest = rows.drop_last();
        law_rows_are_read(rest);
        assert(forall|k: int| 0 <= k < rest.len() ==> rest[k] == #[trigger] rows[k]);
        if parsed_windows(rows) is Ok {
            assert forall|k: int| 0 <= k < rows.len() implies parsed_window(#[trigger] rows[k]) is Ok by {
                if k < rest.len() {
                    assert(rest[k] == rows[k]);
                }
            }
        } else if forall|k: int| 0 <= k < rows.len() ==> parsed_window(#[trigger] rows[k]) is Ok {
            assert forall|k: int| 0 <= k < rest.len() implies parsed_window(#[trigger] rest[k]) is Ok by {
                assert(rest[k] == rows[k]);
            }
            assert(parsed_window(rows[rows.len() - 1]) is Ok);
        }
    }
}

/// Where no server is running there are no panes; any other failure is told with what tmux said.
pub proof fn law_failing_inventory(stdout: Seq<char>, stderr: Seq<char>)
    ensures
        ({
            let told = inventory_of(false, stdout, stderr);
            let quiet = crate::text::contains(stderr, "no server running"@)
                || crate::text::contains(stderr, "failed to connect"@);
            &&& quiet ==> told == Ok::<Seq<WindowView>, InventoryFault>(Seq::empty())
            &&& !quiet ==> told == Err::<Seq<WindowView>, InventoryFault>(
                InventoryFault::Failed(trimmed(stderr)),
            )
        }),
{
}

/// A pane is an agent's if its command is one of those of agents, if it bears any mark, or if the
/// name of its window begins as those of agents do; and in no other case.
pub proof fn law_agents(config: TmuxConfig, window: Window, k: int)
    ensures
        0 <= k < config.agent_commands@.len() && config.agent_commands@[k]@ == window.command@
            ==> counts_as_agent(config, window),
        window.harness_id is Some || window.thread_id is Some || window.chat_title is Some
            ==> counts_as_agent(config, window),
        begins_with(window.window_name@, config.new_window_prefix@) ==> counts_as_agent(
            config,
            window,
        ),
        counts_as_agent(config, window) && window.harness_id is None && window.thread_id is None
            && window.chat_title is None && !begins_with(
            window.window_name@,
            config.new_window_prefix@,
        ) ==> exists|at: int|
            0 <= at < config.agent_commands@.len() && (#[trigger] config.agent_commands@[at])@
                == window.command@,
{
    let commands = texts(config.agent_commands@);
    if 0 <= k < config.agent_commands@.len() {
        assert(commands[k] == config.agent_commands@[k]@);
    }
    if commands.contains(window.command@) {
        let at = choose|at: int| 0 <= at < commands.len() && commands[at] == window.command@;
        assert(config.agent_commands@[at]@ == commands[at]);
    }
}

/// The first pane with an id is found, and none only where none has it.
pub proof fn law_pane_with_id(windows: Seq<Window>, pane_id: Seq<char>)
    ensures
        match pane_with_id(windows, pane_id) {
            Some(window) => window.pane_id@ == pane_id && windows.contains(window),
            None => forall|k: int|
                0 <= k < windows.len() ==> (#[trigger] windows[k]).pane_id@ != pane_id,
        },
    decreases windows.len(),
{
    if windows.len() > 0 && windows[0].pane_id@ != pane_id {
        let rest = windows.skip(1);
        law_pane_with_id(rest, pane_id);
        assert forall|k: int| 0 < k < windows.len() implies #[trigger] windows[k] == rest[k - 1] by {}
        match pane_with_id(rest, pane_id) {
            Some(window) => {
                let k = choose|k: int| 0 <= k < rest.len() && rest[k] == window;
                assert(windows[k + 1] == window);
            },
            None => {},
        }
    } else if windows.len() > 0 {
        assert(windows.contains(windows[0]));
    }
}

/// The window of a session with a name is found, and none only where there is none.
pub proof fn law_window_in(inventory: Seq<Window>, session: Seq<char>, name: Seq<char>)
    ensures
        match window_in(inventory, session, name) {
            Some(window) => window.session@ == session && window.window_name@ == name
                && inventory.contains(window),
            None => forall|k: int|
                0 <= k < inventory.len() && (#[trigger] inventory[k]).session@ == session
                    ==> inventory[k].window_name@ != name,
        },
    decreases inventory.len(),
{
    if inventory.len() > 0 && !(inventory[0].session@ == session && inventory[0].window_name@
        == name) {
        let rest = inventory.skip(1);
        law_window_in(rest, session, name);
        assert forall|k: int| 0 < k < inventory.len() implies #[trigger] inventory[k] == rest[k - 1] by {}
        match window_in(rest, session, name) {
            Some(window) => {
                let k = choose|k: int| 0 <= k < rest.len() && rest[k] == window;
                assert(inventory[k + 1] == window);
            },
            None => {},
        }
    } else if inventory.len() > 0 {
        assert(inventory.contains(inventory[0]));
    }
}

/// A new pane stands in the directory of its project. It is part of the agents' window where the
/// session has one, or such a window of the session where there is the session, or else it begins the
/// session. The session is that of the preferred pane in the directory, where there is one.
pub proof fn law_new_pane(
    config: TmuxConfig,
    inventory: Seq<Window>,
    cwd: Seq<char>,
    canonical: CanonicalPaths,
)
    ensures
        ({
            let done = pane_arguments(config, inventory, cwd, canonical);
            let session = agent_session(inventory, cwd, canonical);
            let name = agent_window_name(config);
            let has_window = exists|k: int|
                0 <= k < inventory.len() && (#[trigger] inventory[k]).session@ == session
                    && inventory[k].window_name@ == name;
            let has_session = exists|k: int|
                0 <= k < inventory.len() && (#[trigger] inventory[k]).session@ == session;
            &&& done.len() >= 9
            &&& done[7] == "-c"@ && done[8] == cwd
            &&& done[1] == "-d"@ && done[2] == "-P"@ && done[3] == "-F"@ && done[4] == "#{pane_id}"@
            &&& has_window ==> done.len() == 9 && done[0] == "split-window"@ && done[5] == "-t"@
                && exists|k: int|
                0 <= k < inventory.len() && (#[trigger] inventory[k]).window_id@ == done[6]
                    && inventory[k].session@ == session && inventory[k].window_name@ == name
            &&& !has_window ==> done.len() == 11 && done[9] == "-n"@ && done[10] == name && done[6]
                == session
            &&& !has_window && has_session ==> done[0] == "new-window"@ && done[5] == "-t"@
            &&& !has_window && !has_session ==> done[0] == "new-session"@ && done[5] == "-s"@
            &&& preferred_pane(inventory, cwd, canonical) matches Some(window) ==> session
                == window.session@
        }),
{
    let session = agent_session(inventory, cwd, canonical);
    let name = agent_window_name(config);
    law_window_in(inventory, session, name);
    match window_in(inventory, session, name) {
        Some(window) => {
            let k = choose|k: int| 0 <= k < inventory.len() && inventory[k] == window;
            assert(inventory[k].session@ == session);
        },
        None => {},
    }
    let all = sessions(inventory);
    assert forall|k: int| 0 <= k < inventory.len() implies #[trigger] inventory[k].session@
        == all[k] by {}
    if all.contains(session) {
        let k = choose|k: int| 0 <= k < all.len() && all[k] == session;
        assert(inventory[k].session@ == session);
    }
    if exists|k: int| 0 <= k < inventory.len() && (#[trigger] inventory[k]).session@ == session {
        let k = choose|k: int|
            0 <= k < inventory.len() && (#[trigger] inventory[k]).session@ == session;
        assert(all[k] == session);
    }
}

/// A path is resolved as the first entry for it says, and stays as it is where there is none.
pub proof fn law_resolved_path(entries: Seq<(String, String)>, path: Seq<char>)
    ensures
        match variable(entries, path) {
            Some(value) => exists|at: int|
                0 <= at < entries.len() && (#[trigger] entries[at]).0@ == path && entries[at].1@
                    == value && forall|k: int|
                    0 <= k < at ==> (#[trigger] entries[k]).0@ != path,
            None => forall|k: int| 0 <= k < entries.len() ==> (#[trigger] entries[k]).0@ != path,
        },
    decreases entries.len(),
{
    if entries.len() > 0 && entries[0].0@ != path {
        let rest = entries.skip(1);
        law_resolved_path(rest, path);
        assert forall|k: int| 0 < k < entries.len() implies #[trigger] entries[k] == rest[k - 1] by {}
        match variable(rest, path) {
            Some(value) => {
                let at = choose|at: int|
                    0 <= at < rest.len() && (#[trigger] rest[at]).0@ == path && rest[at].1@ == value
                        && forall|k: int| 0 <= k < at ==> (#[trigger] rest[k]).0@ != path;
                assert(entries[at + 1].0@ == path);
                assert forall|k: int| 0 <= k < at + 1 implies (#[trigger] entries[k]).0@ != path by {
                    if k > 0 {
                        assert(entries[k] == rest[k - 1]);
                    }
                }
            },
            None => {},
        }
    } else if entries.len() > 0 {
        assert(entries[0].0@ == path);
    }
}

/// The marks of a pane that bears a thread stay. A pane without one is given those of a remembered
/// mapping that fits it, and stays as it is where none does. Nothing else of a pane changes.
pub proof fn law_restoring(window: WindowView, mappings: Seq<MappingView>)
    ensures
        ({
            let after = restored(window, mappings);
            &&& after == (WindowView {
                harness_id: after.harness_id,
                thread_id: after.thread_id,
                ..window
            })
            &&& window.thread_id is Some ==> after.thread_id == window.thread_id && (
            window.harness_id is Some ==> after.harness_id == window.harness_id)
            &&& window.thread_id is None ==> {
                ||| after == window && forall|k: int|
                    0 <= k < mappings.len() ==> !fits(#[trigger] mappings[k], window)
                ||| exists|k: int|
                    0 <= k < mappings.len() && fits(#[trigger] mappings[k], window)
                        && after.harness_id == Some(mappings[k].harness_id) && after.thread_id
                        == Some(mappings[k].thread_id)
            }
        }),
{
    lemma_fitting(mappings, window);
}

proof fn lemma_fitting(mappings: Seq<MappingView>, window: WindowView)
    ensures
        match fitting(mappings, window) {
            Some(mapping) => exists|k: int|
                0 <= k < mappings.len() && #[trigger] mappings[k] == mapping && fits(
                    mapping,
                    window,
                ),
            None => forall|k: int| 0 <= k < mappings.len() ==> !fits(#[trigger] mappings[k], window),
        },
    decreases mappings.len(),
{
    if mappings.len() > 0 && !fits(mappings[0], window) {
        let rest = mappings.skip(1);
        lemma_fitting(rest, window);
        assert forall|k: int| 0 < k < mappings.len() implies #[trigger] mappings[k] == rest[k - 1] by {}
        match fitting(rest, window) {
            Some(mapping) => {
                let k = choose|k: int|
                    0 <= k < rest.len() && #[trigger] rest[k] == mapping && fits(mapping, window);
                assert(mappings[k + 1] == mapping);
            },
            None => {},
        }
    } else if mappings.len() > 0 {
        assert(mappings[0] == fitting(mappings, window)->0);
    }
}

/// A mapping fits a pane only in its directory, only where the pane bears no other harness, and only
/// the pane that it names, where it names one.
pub proof fn law_fitting(mapping: MappingView, window: WindowView)
    requires
        fits(mapping, window),
    ensures
        mapping.cwd == window.cwd,
        window.harness_id is None || window.harness_id == Some(mapping.harness_id),
        mapping.pane_id is Some ==> mapping.pane_id == Some(window.pane_id),
        mapping.pane_id is None ==> mapping.window_id == window.window_id,
{
}

/// Where a thread is opened in a pane, this is what is remembered of both; what is remembered of other
/// threads in other panes stays, and nothing else of the state changes.
pub proof fn law_opened_pane_is_remembered(
    state: StateView,
    harness_id: Seq<char>,
    thread_id: Seq<char>,
    window: WindowView,
    other: MappingView,
)
    ensures
        ({
            let after = state.with_mapping(harness_id, thread_id, window);
            let own = after.mappings.last();
            &&& after == (StateView { mappings: after.mappings, ..state })
            &&& after.mappings.len() > 0
            &&& own.harness_id == harness_id && own.thread_id == thread_id && own.pane_id == Some(
                window.pane_id,
            ) && own.window_id == window.window_id && own.session == window.session
                && own.window_name == window.window_name && own.cwd == window.cwd
            &&& (other.harness_id != harness_id || other.thread_id != thread_id) && other.pane_id
                != Some(window.pane_id) ==> after.mappings.contains(other)
                == state.mappings.contains(other)
        }),
{
    let after = state.with_mapping(harness_id, thread_id, window).mappings;
    let kept = crate::state::other_mappings(
        state.mappings,
        harness_id,
        thread_id,
        window.pane_id,
    );
    let keep = |mapping: MappingView|
        !(mapping.harness_id == harness_id && mapping.thread_id == thread_id) && mapping.pane_id
            != Some(window.pane_id);
    assert(kept == state.mappings.filter(keep));
    lemma_filter_contains(state.mappings, keep, other);
    crate::starting::lemma_pushed(kept, after.last(), other);
    assert(after == kept.push(after.last()));
}

/// What is remembered of panes is kept as long as a pane fits it, and dropped elsewhere; all else of
/// the state stays.
pub proof fn law_lost_panes_are_forgotten(
    state: StateView,
    windows: Seq<WindowView>,
    mapping: MappingView,
)
    ensures
        state.reconciled(windows).mappings.contains(mapping) <==> state.mappings.contains(mapping)
            && exists|k: int| 0 <= k < windows.len() && fits(mapping, #[trigger] windows[k]),
        state.reconciled(windows) == (StateView {
            mappings: state.reconciled(windows).mappings,
            ..state
        }),
{
    let keep = |mapping: MappingView| crate::state::fits_any(mapping, windows);
    assert(live_mappings(state.mappings, windows) == state.mappings.filter(keep));
    lemma_filter_contains(state.mappings, keep, mapping);
}

/// A name of lower-case letters, digits and underscores of at most twenty-four characters is fit for a
/// session as it is.
pub proof fn law_fit_name(name: Seq<char>)
    requires
        name.len() <= 24,
        forall|k: int|
            0 <= k < name.len() ==> ('a' <= #[trigger] name[k] <= 'z' || '0' <= name[k] <= '9'
                || name[k] == '_'),
    ensures
        sanitized(name) == name,
{
    assert(is_safe_name(name));
    law_sanitized_stays(name);
}

/// As long as there is room, each letter, digit and underscore goes into the name of a session as it is,
/// and what stands between them becomes one dash.
pub proof fn law_name_grows(chars: Seq<char>, character: char)
    requires
        slug(chars).len() < 24,
    ensures
        ({
            let fit = 'a' <= character <= 'z' || 'A' <= character <= 'Z' || '0' <= character <= '9'
                || character == '_';
            let before = slug(chars);
            let after = slug(chars.push(character));
            &&& fit ==> after == before.push(character)
            &&& !fit && before.len() > 0 && before.last() != '-' ==> after == before.push('-')
            &&& !fit && (before.len() == 0 || before.last() == '-') ==> after == before
        }),
{
    assert(chars.push(character).drop_last() =~= chars);
}

/// A new session is named after the last part of its directory, where a name can be made of it.
pub proof fn law_session_of_a_directory(directory: Seq<char>, name: Seq<char>)
    requires
        directory.len() > 0,
        is_plain_name(name),
    ensures
        sanitized(name).len() > 0 ==> session_base(directory + seq!['/'] + name) == sanitized(name),
        sanitized(name).len() == 0 ==> session_base(directory + seq!['/'] + name) == "project"@,
{
    law_name_in_directory(directory, name);
}

/// A session for a directory is the one of a pane that stands there, of those the one that was attached
/// last; where there is none it is new, and named as no other is.
pub proof fn law_session_of_an_agent(
    inventory: Seq<Window>,
    cwd: Seq<char>,
    canonical: CanonicalPaths,
    k: int,
)
    ensures
        ({
            let session = agent_session(inventory, cwd, canonical);
            let there = |window: Window|
                components(canonical.normal(window.cwd@)) == components(canonical.normal(cwd));
            &&& 0 <= k < inventory.len() && there(inventory[k]) ==> exists|at: int|
                0 <= at < inventory.len() && there(#[trigger] inventory[at])
                    && inventory[at].session@ == session && inventory[at].session_last_attached
                    >= inventory[k].session_last_attached
            &&& (forall|at: int| 0 <= at < inventory.len() ==> !there(#[trigger] inventory[at]))
                ==> !sessions(inventory).contains(session)
        }),
{
    let there = |window: Window|
        components(canonical.normal(window.cwd@)) == components(canonical.normal(cwd));
    law_preferred_pane(inventory, cwd, canonical);
    law_free_name_is_free(session_base(cwd), sessions(inventory));
    match preferred_pane(inventory, cwd, canonical) {
        Some(window) => {
            let at = choose|at: int| 0 <= at < inventory.len() && inventory[at] == window;
            assert(there(inventory[at]));
        },
        None => {},
    }
}

} // verus!

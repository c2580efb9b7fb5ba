//! The loader's rules: which of the plugins that were loaded are kept, and
//! how the runtime itself reaches the blackboard.

use vstd::prelude::*;
use crate::capabilities::{Capabilities, Function};
use crate::components::{component_libraries, create_caps, ComponentsType};
use crate::error::RuntimeError;
use crate::rtlibrary::{string_views, RTLibrary};
use crate::text::str_eq;
use crate::wiring::{capped, table_views, wired};

verus! {

/// The name of the plugin that provides the blackboard.
pub const BLACKBOARD: &'static str = "blackboard";

/// The key whose changes the runtime itself listens to.
pub const START_PROJECT_KEY: &'static str = "start_project";

/// The name under which the runtime itself subscribes.
pub const LOADER_COMPONENT: &'static str = "loader";

/// The names of a sequence of loaded plugins.
pub open spec fn loaded_names(libraries: Seq<RTLibrary>) -> Seq<Seq<char>> {
    Seq::new(libraries.len(), |i: int| libraries[i]@.summary.name)
}

/// The plugins that are kept of those that were tried, in their order: one
/// that could not be loaded is skipped, and so is one whose name an earlier
/// one has.
pub open spec fn accepted(candidates: Seq<Option<RTLibrary>>) -> Seq<RTLibrary>
    decreases candidates.len(),
{
    if candidates.len() == 0 {
        Seq::empty()
    } else {
        let front = accepted(candidates.drop_last());
        match candidates.last() {
            Some(library) => if loaded_names(front).contains(library@.summary.name) {
                front
            } else {
                front.push(library)
            },
            None => front,
        }
    }
}

/// No two of the plugins that are kept have the same name, and each of them
/// was among those that were tried.
pub proof fn law_accepted_plugins_are_distinct(candidates: Seq<Option<RTLibrary>>)
    ensures
        accepted(candidates).len() <= candidates.len(),
        forall|i: int, j: int|
            0 <= i < j < accepted(candidates).len() ==> #[trigger] loaded_names(
                accepted(candidates),
            )[i] != #[trigger] loaded_names(accepted(candidates))[j],
        forall|i: int|
            0 <= i < accepted(candidates).len() ==> candidates.contains(
                Some(#[trigger] accepted(candidates)[i]),
            ),
    decreases candidates.len(),
{
    if candidates.len() == 0 {
    } else {
        let front = accepted(candidates.drop_last());
        let kept = accepted(candidates);
        law_accepted_plugins_are_distinct(candidates.drop_last());
        assert forall|i: int| 0 <= i < kept.len() implies candidates.contains(
            Some(#[trigger] kept[i]),
        ) by {
            if i < front.len() {
                assert(kept[i] == front[i]);
                assert(candidates.drop_last().contains(Some(front[i])));
                let k = choose|k: int|
                    0 <= k < candidates.drop_last().len() && candidates.drop_last()[k] == Some(
                        front[i],
                    );
                assert(candidates[k] == Some(kept[i]));
            } else {
                assert(candidates[candidates.len() - 1] == Some(kept[i]));
            }
        }
        assert forall|i: int, j: int| 0 <= i < j < kept.len() implies #[trigger] loaded_names(kept)[i]
            != #[trigger] loaded_names(kept)[j] by {
            if j < front.len() {
                assert(loaded_names(front)[i] != loaded_names(front)[j]);
            } else {
                assert(loaded_names(front)[i] == loaded_names(kept)[i]);
            }
        }
    }
}

/// Whether one of the loaded plugins is called `name`.
fn is_loaded(libraries: &Vec<RTLibrary>, name: &str) -> (found: bool)
    ensures
        found == loaded_names(libraries@).contains(name@),
{
    let mut i: usize = 0;
    while i < libraries.len()
        invariant
            i <= libraries@.len(),
            forall|j: int| 0 <= j < i ==> #[trigger] loaded_names(libraries@)[j] != name@,
        decreases libraries@.len() - i,
    {
        if str_eq(libraries[i].name(), name) {
            assert(loaded_names(libraries@)[i as int] == name@);
            return true;
        }
        assert(loaded_names(libraries@)[i as int] != name@);
        i += 1;
    }
    false
}

/// The plugins that the runtime keeps. `candidates` holds, for each
/// configured plugin in the order of the configuration, what loading it
/// gave: the loaded plugin, or nothing where it could not be loaded or did
/// not describe itself. Of several plugins of one name the first is kept.
pub fn load_libraries(candidates: Vec<Option<RTLibrary>>) -> (libraries: Vec<RTLibrary>)
    ensures
        libraries@ == accepted(candidates@),
{
    let mut rest = candidates;
    let mut libraries: Vec<RTLibrary> = Vec::new();
    let ghost mut done: int = 0;
    proof {
        assert(candidates@.take(0) =~= Seq::<Option<RTLibrary>>::empty());
        assert(candidates@.skip(0) =~= candidates@);
    }
    while rest.len() > 0
        invariant
            0 <= done <= candidates@.len(),
            rest@ == candidates@.skip(done),
            libraries@ == accepted(candidates@.take(done)),
        decreases rest@.len(),
    {
        let candidate = rest.remove(0);
        proof {
            assert(candidate == candidates@[done]);
            assert(candidates@.take(done + 1).drop_last() =~= candidates@.take(done));
            assert(candidates@.take(done + 1).last() == candidate);
            assert(rest@ =~= candidates@.skip(done + 1));
            done = done + 1;
        }
        match candidate {
            Some(rtlibrary) => {
                if !is_loaded(&libraries, rtlibrary.name()) {
                    libraries.push(rtlibrary);
                }
            },
            None => {},
        }
    }
    proof {
        assert(candidates@.take(done) =~= candidates@);
    }
    libraries
}

/// The capability table for a component that requires the blackboard.
pub fn create_caps_blackboard(
    library_list: &Vec<ComponentsType>,
) -> (table: Result<Capabilities, RuntimeError>)
    ensures
        match wired(seq![BLACKBOARD@], component_libraries(library_list@)) {
            Ok(all) => table.is_ok() && table.unwrap().wf() && table_views(
                table.unwrap()@.entries(),
            ) == capped(all),
            Err(error) => table.is_err() && table.unwrap_err() == error,
        },
{
    let mut required: Vec<String> = Vec::new();
    required.push(BLACKBOARD.to_owned());
    assert(string_views(required@) =~= seq![BLACKBOARD@]);
    create_caps(&required, library_list)
}

/// The function behind the capability called `name`. A table without that
/// capability is refused with `CapabilityNotFound`, a capability without a
/// function with `NullInput`.
pub fn blackboard_function(
    caps: &Capabilities,
    name: &str,
) -> (function: Result<Function, RuntimeError>)
    requires
        caps.wf(),
    ensures
        match caps.spec_get(name@) {
            None => function.is_err() && function.unwrap_err() == RuntimeError::CapabilityNotFound,
            Some(capability) => if capability.function == 0 {
                function.is_err() && function.unwrap_err() == RuntimeError::NullInput
            } else {
                function.is_ok() && function.unwrap().spec_address() == capability.function
            },
        },
{
    match caps.get(name) {
        Some(capability) => capability.get(),
        None => Err(RuntimeError::CapabilityNotFound),
    }
}

/// Whether a status that a plugin returned means success: `0` does, every
/// other code does not.
pub fn status_ok(code: i32) -> (ok: bool)
    ensures
        ok == (code == 0),
{
    code == 0
}

/// The size that a sized read reported: the number of bytes to make room
/// for, or nothing where the read failed, which a negative code says.
pub fn read_size(code: i32) -> (size: Option<usize>)
    ensures
        size == if code >= 0 {
            Some(code as usize)
        } else {
            None::<usize>
        },
{
    if code >= 0 {
        Some(code as usize)
    } else {
        None
    }
}

} // verus!

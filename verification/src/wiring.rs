//! The model of the wiring: which capabilities a plugin is handed, given
//! the plugins that it requires and what those provide.

use vstd::prelude::*;
use crate::bindings;
use crate::bindings::{padded, MAX_CAPABILITIES};
use crate::error::RuntimeError;
use crate::rtlibrary::{symbol_address, LibraryView};
use crate::text::position_of;

verus! {

/// A capability as the wiring sees it: the bytes of its name buffer and the
/// address of its function.
pub type WiredCapability = (Seq<u8>, usize);

/// The capabilities of a table's slots.
pub open spec fn table_views(entries: Seq<bindings::Capability>) -> Seq<WiredCapability> {
    Seq::new(entries.len(), |i: int| (entries[i].name@, entries[i].function))
}

/// The names of a sequence of loaded plugins.
pub open spec fn library_names(libraries: Seq<LibraryView>) -> Seq<Seq<char>> {
    Seq::new(libraries.len(), |i: int| libraries[i].summary.name)
}

/// What fits a table: the first capabilities, up to the table's capacity.
/// The others are dropped.
pub open spec fn capped(capabilities: Seq<WiredCapability>) -> Seq<WiredCapability> {
    if capabilities.len() <= MAX_CAPABILITIES {
        capabilities
    } else {
        capabilities.take(MAX_CAPABILITIES as int)
    }
}

/// The capabilities that a plugin's declarations give, in their order, each
/// with the address of the symbol that exports it; or `SymbolNotFound`
/// where the plugin does not export one of them.
pub open spec fn resolved(
    provides: Seq<(Seq<char>, Seq<char>)>,
    symbols: Seq<(Seq<char>, usize)>,
) -> Result<Seq<WiredCapability>, RuntimeError>
    decreases provides.len(),
{
    if provides.len() == 0 {
        Ok(Seq::empty())
    } else {
        match resolved(provides.drop_last(), symbols) {
            Err(error) => Err(error),
            Ok(front) => match symbol_address(symbols, provides.last().1) {
                None => Err(RuntimeError::SymbolNotFound),
                Some(address) => Ok(
                    front.push((padded(vstd::utf8::encode_utf8(provides.last().0)), address)),
                ),
            },
        }
    }
}

/// The capabilities that a plugin with the given requirements is handed:
/// for each required name in turn, what the first loaded plugin of that
/// name provides. A name that no loaded plugin has gives
/// `CapabilityNotFound`.
pub open spec fn wired(
    required: Seq<Seq<char>>,
    libraries: Seq<LibraryView>,
) -> Result<Seq<WiredCapability>, RuntimeError>
    decreases required.len(),
{
    if required.len() == 0 {
        Ok(Seq::empty())
    } else {
        match wired(required.drop_last(), libraries) {
            Err(error) => Err(error),
            Ok(front) => {
                let at = position_of(library_names(libraries), required.last());
                if at >= libraries.len() {
                    Err(RuntimeError::CapabilityNotFound)
                } else {
                    match resolved(libraries[at].summary.provided(), libraries[at].symbols) {
                        Err(error) => Err(error),
                        Ok(more) => Ok(front + more),
                    }
                }
            },
        }
    }
}

/// What fits a table of what was appended to what fitted before is what
/// fits of the whole.
pub proof fn lemma_capped_append(first: Seq<WiredCapability>, more: Seq<WiredCapability>)
    ensures
        capped(capped(first) + more) == capped(first + more),
        capped(first).len() <= MAX_CAPABILITIES,
{
    assert(capped(capped(first) + more) =~= capped(first + more));
}

/// A declaration that cannot be resolved fails the whole list.
pub proof fn lemma_resolved_prefix_error(
    provides: Seq<(Seq<char>, Seq<char>)>,
    symbols: Seq<(Seq<char>, usize)>,
    upto: int,
)
    requires
        0 <= upto <= provides.len(),
        resolved(provides.take(upto), symbols).is_err(),
    ensures
        resolved(provides, symbols) == resolved(provides.take(upto), symbols),
    decreases provides.len() - upto,
{
    if upto == provides.len() {
        assert(provides.take(upto) =~= provides);
    } else {
        let front = provides.drop_last();
        assert(front.take(upto) =~= provides.take(upto));
        lemma_resolved_prefix_error(front, symbols, upto);
    }
}

/// A requirement that cannot be met fails the whole list.
pub proof fn lemma_wired_prefix_error(
    required: Seq<Seq<char>>,
    libraries: Seq<LibraryView>,
    upto: int,
)
    requires
        0 <= upto <= required.len(),
        wired(required.take(upto), libraries).is_err(),
    ensures
        wired(required, libraries) == wired(required.take(upto), libraries),
    decreases required.len() - upto,
{
    if upto == required.len() {
        assert(required.take(upto) =~= required);
    } else {
        let front = required.drop_last();
        assert(front.take(upto) =~= required.take(upto));
        lemma_wired_prefix_error(front, libraries, upto);
    }
}

} // verus!

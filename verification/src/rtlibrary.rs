//! What a plugin says of itself, and a loaded plugin as the runtime sees it.

use vstd::prelude::*;
use crate::error::RuntimeError;
use crate::text::{lemma_position_of_is, position_of, str_eq};

verus! {

/// The two kinds of plugin: a service runs as long as the process, a skill
/// is run on demand.
#[derive(Clone, Copy, Debug, PartialEq, Eq, Structural)]
pub enum RTLibraryType {
    Service,
    Skill,
}

impl Default for RTLibraryType {
    fn default() -> (library_type: RTLibraryType)
        ensures
            library_type == RTLibraryType::Skill,
    {
        RTLibraryType::Skill
    }
}

/// A capability that a plugin provides: its name, and the symbol that
/// exports its function.
#[derive(Debug)]
pub struct RTCapabilityInfo {
    pub capability: String,
    pub entry: String,
}

impl View for RTCapabilityInfo {
    type V = (Seq<char>, Seq<char>);

    open spec fn view(&self) -> (Seq<char>, Seq<char>) {
        (self.capability@, self.entry@)
    }
}

impl RTCapabilityInfo {
    pub fn new(capability: &str, entry: &str) -> (info: RTCapabilityInfo)
        ensures
            info@ == (capability@, entry@),
    {
        RTCapabilityInfo { capability: capability.to_owned(), entry: entry.to_owned() }
    }
}

impl Clone for RTCapabilityInfo {
    fn clone(&self) -> (copy: RTCapabilityInfo)
        ensures
            copy@ == self@,
    {
        RTCapabilityInfo::new(self.capability.as_str(), self.entry.as_str())
    }
}

/// The characters of each string of a sequence.
pub open spec fn string_views(strings: Seq<String>) -> Seq<Seq<char>> {
    Seq::new(strings.len(), |i: int| strings[i]@)
}

/// The views of a sequence of provided capabilities.
pub open spec fn info_views(infos: Seq<RTCapabilityInfo>) -> Seq<(Seq<char>, Seq<char>)> {
    Seq::new(infos.len(), |i: int| infos[i]@)
}

/// A copy of a list of strings.
pub fn clone_strings(strings: &Vec<String>) -> (copy: Vec<String>)
    ensures
        string_views(copy@) == string_views(strings@),
{
    let mut copy: Vec<String> = Vec::new();
    let mut i: usize = 0;
    while i < strings.len()
        invariant
            i <= strings@.len(),
            copy@.len() == i,
            forall|j: int| 0 <= j < i ==> (#[trigger] copy@[j])@ == strings@[j]@,
        decreases strings@.len() - i,
    {
        copy.push(strings[i].clone());
        i += 1;
    }
    assert(string_views(copy@) =~= string_views(strings@));
    copy
}

/// A copy of a list of provided capabilities.
pub fn clone_infos(infos: &Vec<RTCapabilityInfo>) -> (copy: Vec<RTCapabilityInfo>)
    ensures
        info_views(copy@) == info_views(infos@),
{
    let mut copy: Vec<RTCapabilityInfo> = Vec::new();
    let mut i: usize = 0;
    while i < infos.len()
        invariant
            i <= infos@.len(),
            copy@.len() == i,
            forall|j: int| 0 <= j < i ==> (#[trigger] copy@[j])@ == infos@[j]@,
        decreases infos@.len() - i,
    {
        copy.push(infos[i].clone());
        i += 1;
    }
    assert(info_views(copy@) =~= info_views(infos@));
    copy
}

/// A plugin's description of itself.
#[derive(Debug)]
pub struct RTLibrarySummary {
    pub name: String,
    pub library_type: RTLibraryType,
    pub version: String,
    pub provides: Option<Vec<RTCapabilityInfo>>,
    pub requires: Option<Vec<String>>,
}

/// What a description says.
pub struct SummaryView {
    pub name: Seq<char>,
    pub library_type: RTLibraryType,
    pub version: Seq<char>,
    pub provides: Option<Seq<(Seq<char>, Seq<char>)>>,
    pub requires: Option<Seq<Seq<char>>>,
}

impl View for RTLibrarySummary {
    type V = SummaryView;

    open spec fn view(&self) -> SummaryView {
        SummaryView {
            name: self.name@,
            library_type: self.library_type,
            version: self.version@,
            provides: match self.provides {
                Some(infos) => Some(info_views(infos@)),
                None => None,
            },
            requires: match self.requires {
                Some(names) => Some(string_views(names@)),
                None => None,
            },
        }
    }
}

impl SummaryView {
    /// The capabilities that the plugin provides; none where it names none.
    pub open spec fn provided(self) -> Seq<(Seq<char>, Seq<char>)> {
        match self.provides {
            Some(infos) => infos,
            None => Seq::empty(),
        }
    }

    /// The plugins that the plugin requires; none where it names none.
    pub open spec fn required(self) -> Seq<Seq<char>> {
        match self.requires {
            Some(names) => names,
            None => Seq::empty(),
        }
    }
}

impl RTLibrarySummary {
    pub fn new(
        name: &str,
        library_type: &RTLibraryType,
        version: &str,
        provides: &Option<Vec<RTCapabilityInfo>>,
        requires: &Option<Vec<String>>,
    ) -> (summary: RTLibrarySummary)
        ensures
            summary@ == (SummaryView {
                name: name@,
                library_type: *library_type,
                version: version@,
                provides: match *provides {
                    Some(infos) => Some(info_views(infos@)),
                    None => None,
                },
                requires: match *requires {
                    Some(names) => Some(string_views(names@)),
                    None => None,
                },
            }),
    {
        RTLibrarySummary {
            name: name.to_owned(),
            library_type: *library_type,
            version: version.to_owned(),
            provides: match provides {
                Some(infos) => Some(clone_infos(infos)),
                None => None,
            },
            requires: match requires {
                Some(names) => Some(clone_strings(names)),
                None => None,
            },
        }
    }
}

impl Clone for RTLibrarySummary {
    fn clone(&self) -> (copy: RTLibrarySummary)
        ensures
            copy@ == self@,
    {
        RTLibrarySummary::new(
            self.name.as_str(),
            &self.library_type,
            self.version.as_str(),
            &self.provides,
            &self.requires,
        )
    }
}

/// An exported symbol of a plugin that the loader has resolved: the
/// symbol's name and the address that it stands for.
#[derive(Debug)]
pub struct ResolvedSymbol {
    pub entry: String,
    pub address: usize,
}

impl View for ResolvedSymbol {
    type V = (Seq<char>, usize);

    open spec fn view(&self) -> (Seq<char>, usize) {
        (self.entry@, self.address)
    }
}

/// The views of a sequence of resolved symbols.
pub open spec fn symbol_views(symbols: Seq<ResolvedSymbol>) -> Seq<(Seq<char>, usize)> {
    Seq::new(symbols.len(), |i: int| symbols[i]@)
}

/// The names of a sequence of resolved symbols.
pub open spec fn symbol_names(symbols: Seq<(Seq<char>, usize)>) -> Seq<Seq<char>> {
    Seq::new(symbols.len(), |i: int| symbols[i].0)
}

/// The address of the first symbol of the given name, if there is one.
pub open spec fn symbol_address(symbols: Seq<(Seq<char>, usize)>, entry: Seq<char>) -> Option<
    usize,
> {
    let at = position_of(symbol_names(symbols), entry);
    if at < symbols.len() {
        Some(symbols[at].1)
    } else {
        None
    }
}

/// What came of asking a loaded plugin for its description.
#[derive(Debug)]
pub enum SummaryProbe {
    /// The plugin does not export `summary`.
    SymbolMissing,
    /// `summary` returned no text.
    Null,
    /// The text is not UTF-8.
    NotUtf8,
    /// The text does not describe a plugin.
    Unparsable,
    /// The description that the text holds.
    Parsed(RTLibrarySummary),
}

/// A loaded plugin: the handle under which the loader holds its image, its
/// description, the attributes that the configuration gives it, as the text
/// that is handed to it when it is started or run, and the symbols that were
/// resolved in it.
#[derive(Debug)]
pub struct RTLibrary {
    pub image: usize,
    pub summary: RTLibrarySummary,
    pub config_attr_str: Option<String>,
    pub symbols: Vec<ResolvedSymbol>,
}

/// What a loaded plugin is.
pub struct LibraryView {
    pub image: usize,
    pub summary: SummaryView,
    pub config_attr_str: Option<Seq<char>>,
    pub symbols: Seq<(Seq<char>, usize)>,
}

impl View for RTLibrary {
    type V = LibraryView;

    open spec fn view(&self) -> LibraryView {
        LibraryView {
            image: self.image,
            summary: self.summary@,
            config_attr_str: match self.config_attr_str {
                Some(text) => Some(text@),
                None => None,
            },
            symbols: symbol_views(self.symbols@),
        }
    }
}

impl RTLibrary {
    /// The loaded plugin, if it described itself. A plugin without the
    /// symbol `summary` is refused with `SymbolNotFound`, one whose
    /// description cannot be read with `LoadFailed`.
    pub fn new(
        image: usize,
        probe: SummaryProbe,
        config_attr_str: Option<String>,
        symbols: Vec<ResolvedSymbol>,
    ) -> (loaded: Result<RTLibrary, RuntimeError>)
        ensures
            match probe {
                SummaryProbe::SymbolMissing => loaded.is_err() && loaded.unwrap_err()
                    == RuntimeError::SymbolNotFound,
                SummaryProbe::Null | SummaryProbe::NotUtf8 | SummaryProbe::Unparsable
                    => loaded.is_err() && loaded.unwrap_err() == RuntimeError::LoadFailed,
                SummaryProbe::Parsed(summary) => loaded.is_ok() && loaded.unwrap() == (RTLibrary {
                    image,
                    summary,
                    config_attr_str,
                    symbols,
                }),
            },
    {
        match probe {
            SummaryProbe::SymbolMissing => Err(RuntimeError::SymbolNotFound),
            SummaryProbe::Null => Err(RuntimeError::LoadFailed),
            SummaryProbe::NotUtf8 => Err(RuntimeError::LoadFailed),
            SummaryProbe::Unparsable => Err(RuntimeError::LoadFailed),
            SummaryProbe::Parsed(summary) => Ok(
                RTLibrary { image, summary, config_attr_str, symbols },
            ),
        }
    }

    /// The handle under which the loader holds the plugin's image.
    pub fn image(&self) -> (image: usize)
        ensures
            image == self@.image,
    {
        self.image
    }

    /// The name under which other plugins require this one.
    pub fn name(&self) -> (name: &str)
        ensures
            name@ == self@.summary.name,
    {
        self.summary.name.as_str()
    }

    pub fn library_type(&self) -> (library_type: &RTLibraryType)
        ensures
            *library_type == self@.summary.library_type,
    {
        &self.summary.library_type
    }

    pub fn version(&self) -> (version: &str)
        ensures
            version@ == self@.summary.version,
    {
        self.summary.version.as_str()
    }

    pub fn is_service(&self) -> (service: bool)
        ensures
            service == (self@.summary.library_type == RTLibraryType::Service),
    {
        match self.summary.library_type {
            RTLibraryType::Service => true,
            RTLibraryType::Skill => false,
        }
    }

    /// The text that is handed to the plugin when it is started or run: its
    /// attributes, or the empty text where it has none.
    pub fn attributes(&self) -> (text: &str)
        ensures
            text@ == match self@.config_attr_str {
                Some(given) => given,
                None => Seq::<char>::empty(),
            },
    {
        match &self.config_attr_str {
            Some(given) => given.as_str(),
            None => {
                proof {
                    reveal_strlit("");
                    assert(""@ =~= Seq::<char>::empty());
                }
                ""
            },
        }
    }

    /// The address of the first resolved symbol called `entry`, if the
    /// plugin exports one.
    pub fn symbol(&self, entry: &str) -> (address: Option<usize>)
        ensures
            address == symbol_address(self@.symbols, entry@),
    {
        let mut i: usize = 0;
        while i < self.symbols.len()
            invariant
                i <= self.symbols@.len(),
                forall|j: int| 0 <= j < i ==> #[trigger] symbol_names(self@.symbols)[j] != entry@,
            decreases self.symbols@.len() - i,
        {
            if str_eq(self.symbols[i].entry.as_str(), entry) {
                proof {
                    assert(symbol_names(self@.symbols)[i as int] == entry@);
                    lemma_position_of_is(symbol_names(self@.symbols), entry@, i as int);
                }
                return Some(self.symbols[i].address);
            }
            assert(symbol_names(self@.symbols)[i as int] != entry@);
            i += 1;
        }
        proof {
            lemma_position_of_is(symbol_names(self@.symbols), entry@, i as int);
        }
        None
    }
}

} // verus!

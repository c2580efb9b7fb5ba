//! The loaded plugins as components: services and skills, the capability
//! table that each is handed, and the order in which services start.

use vstd::prelude::*;
use crate::capabilities::{Capabilities, Capability};
use crate::error::RuntimeError;
use crate::rtlibrary::{
    clone_strings, info_views, string_views, LibraryView, RTLibrary, RTLibraryType,
};
use crate::text::{lemma_position_of_is, position_of, str_eq};
use crate::wiring::{
    capped, lemma_capped_append, lemma_resolved_prefix_error, lemma_wired_prefix_error,
    library_names, resolved, table_views, wired, WiredCapability,
};

verus! {

/// What the runtime reads of a component, whatever its kind.
pub trait Component {
    /// The text that is handed to the component when it is started or run.
    fn attributes(&self) -> &str;

    /// The loaded plugin behind the component.
    fn library(&self) -> &RTLibrary;

    /// The names of the plugins whose capabilities the component consumes.
    fn required(&self) -> &Vec<String>;
}

/// A plugin that is run on demand.
#[derive(Debug)]
pub struct Skill {
    pub library: RTLibrary,
    pub requires: Vec<String>,
}

/// A plugin that runs as long as the process.
#[derive(Debug)]
pub struct Service {
    pub library: RTLibrary,
    pub requires: Vec<String>,
}

/// The names that a plugin's description requires; none where it names
/// none.
fn required_names(library: &RTLibrary) -> (names: Vec<String>)
    ensures
        string_views(names@) == library@.summary.required(),
{
    match &library.summary.requires {
        Some(names) => clone_strings(names),
        None => {
            let names: Vec<String> = Vec::new();
            assert(string_views(names@) =~= Seq::<Seq<char>>::empty());
            names
        },
    }
}

impl Skill {
    /// The skill that a loaded plugin is, with the requirements that its
    /// description names.
    pub fn new(library: RTLibrary) -> (skill: Skill)
        ensures
            skill.library == library,
            string_views(skill.requires@) == library@.summary.required(),
    {
        let names = required_names(&library);
        Skill { requires: names, library }
    }
}

impl Service {
    /// The service that a loaded plugin is, with the requirements that its
    /// description names.
    pub fn new(library: RTLibrary) -> (service: Service)
        ensures
            service.library == library,
            string_views(service.requires@) == library@.summary.required(),
    {
        let names = required_names(&library);
        Service { requires: names, library }
    }
}

impl Component for Skill {
    fn attributes(&self) -> (text: &str)
        ensures
            text@ == match self.library@.config_attr_str {
                Some(given) => given,
                None => Seq::<char>::empty(),
            },
    {
        self.library.attributes()
    }

    fn library(&self) -> (library: &RTLibrary)
        ensures
            *library == self.library,
    {
        &self.library
    }

    fn required(&self) -> (names: &Vec<String>)
        ensures
            *names == self.requires,
    {
        &self.requires
    }
}

impl Component for Service {
    fn attributes(&self) -> (text: &str)
        ensures
            text@ == match self.library@.config_attr_str {
                Some(given) => given,
                None => Seq::<char>::empty(),
            },
    {
        self.library.attributes()
    }

    fn library(&self) -> (library: &RTLibrary)
        ensures
            *library == self.library,
    {
        &self.library
    }

    fn required(&self) -> (names: &Vec<String>)
        ensures
            *names == self.requires,
    {
        &self.requires
    }
}

/// A component of either kind.
#[derive(Debug)]
pub enum ComponentsType {
    Service(Service),
    Skill(Skill),
}

/// The components of a runtime.
pub type ComponentsVec = Vec<ComponentsType>;

impl ComponentsType {
    /// The loaded plugin behind the component.
    pub open spec fn spec_library(&self) -> RTLibrary {
        match self {
            ComponentsType::Service(service) => service.library,
            ComponentsType::Skill(skill) => skill.library,
        }
    }

    /// The names of the plugins whose capabilities the component consumes.
    pub open spec fn spec_requires(&self) -> Seq<Seq<char>> {
        match self {
            ComponentsType::Service(service) => string_views(service.requires@),
            ComponentsType::Skill(skill) => string_views(skill.requires@),
        }
    }

    /// The loaded plugin behind the component.
    pub fn library(&self) -> (library: &RTLibrary)
        ensures
            *library == self.spec_library(),
    {
        match self {
            ComponentsType::Service(service) => &service.library,
            ComponentsType::Skill(skill) => &skill.library,
        }
    }
}

/// The loaded plugins behind a sequence of components.
pub open spec fn component_libraries(components: Seq<ComponentsType>) -> Seq<LibraryView> {
    Seq::new(components.len(), |i: int| components[i].spec_library()@)
}

/// The position of the first component whose plugin is called `name`, or
/// the number of components where none is.
fn find_library(libraries: &ComponentsVec, name: &str) -> (at: usize)
    ensures
        at <= libraries@.len(),
        at == position_of(library_names(component_libraries(libraries@)), name@),
{
    let ghost names = library_names(component_libraries(libraries@));
    let mut at: usize = 0;
    while at < libraries.len()
        invariant
            at <= libraries@.len(),
            names == library_names(component_libraries(libraries@)),
            forall|j: int| 0 <= j < at ==> #[trigger] names[j] != name@,
        decreases libraries@.len() - at,
    {
        if str_eq(libraries[at].library().name(), name) {
            proof {
                assert(names[at as int] == name@);
                lemma_position_of_is(names, name@, at as int);
            }
            return at;
        }
        assert(names[at as int] != name@);
        at += 1;
    }
    proof {
        lemma_position_of_is(names, name@, at as int);
    }
    at
}

/// Appends the capabilities that a plugin provides to a table, as far as
/// they fit. A declaration whose symbol the plugin does not export is
/// refused with `SymbolNotFound`.
fn add_provided(caps: &mut Capabilities, library: &RTLibrary) -> (done: Result<(), RuntimeError>)
    requires
        old(caps).wf(),
    ensures
        final(caps).wf(),
        match resolved(library@.summary.provided(), library@.symbols) {
            Ok(more) => done.is_ok() && table_views(final(caps)@.entries()) == capped(
                table_views(old(caps)@.entries()) + more,
            ),
            Err(error) => done == Err::<(), RuntimeError>(error),
        },
{
    let ghost before = table_views(caps@.entries());
    let ghost declared = library@.summary.provided();
    let ghost symbols = library@.symbols;
    let provides = match &library.summary.provides {
        Some(provides) => provides,
        None => {
            proof {
                assert(capped(before + Seq::<WiredCapability>::empty()) =~= before);
            }
            return Ok(());
        },
    };
    assert(declared == info_views(provides@));
    let ghost mut more: Seq<WiredCapability> = Seq::empty();
    let mut i: usize = 0;
    proof {
        assert(declared.take(0) =~= Seq::<(Seq<char>, Seq<char>)>::empty());
        assert(capped(before + more) =~= before);
    }
    while i < provides.len()
        invariant
            i <= provides@.len(),
            caps.wf(),
            before.len() <= 20,
            declared == info_views(provides@),
            declared == library@.summary.provided(),
            symbols == library@.symbols,
            before == table_views(old(caps)@.entries()),
            resolved(declared.take(i as int), symbols) == Ok::<Seq<WiredCapability>, RuntimeError>(
                more,
            ),
            table_views(caps@.entries()) == capped(before + more),
        decreases provides@.len() - i,
    {
        let info = &provides[i];
        proof {
            assert(declared.take(i + 1).drop_last() =~= declared.take(i as int));
            assert(declared.take(i + 1).last() == info@);
        }
        let address = match library.symbol(info.entry.as_str()) {
            Some(address) => address,
            None => {
                proof {
                    lemma_resolved_prefix_error(declared, symbols, i + 1);
                }
                return Err(RuntimeError::SymbolNotFound);
            },
        };
        let cap = Capability::new(info.capability.as_str(), address);
        let ghost added: WiredCapability = (cap@.name@, cap@.function);
        let ghost table = table_views(caps@.entries());
        caps.add(cap);
        proof {
            assert(table_views(caps@.entries()) =~= capped(table + seq![added]));
            lemma_capped_append(before + more, seq![added]);
            assert((before + more) + seq![added] =~= before + more.push(added));
            more = more.push(added);
        }
        i += 1;
    }
    proof {
        assert(declared.take(i as int) =~= declared);
    }
    Ok(())
}

/// The capability table for a plugin that requires the plugins called
/// `required`: for each name in turn, the capabilities that the first
/// component of that name provides, each with the address of the symbol
/// that exports it. What does not fit the table is dropped. A name that no
/// component has is refused with `CapabilityNotFound`, a declaration whose
/// symbol the component does not export with `SymbolNotFound`.
pub fn create_caps(
    required: &Vec<String>,
    libraries: &ComponentsVec,
) -> (table: Result<Capabilities, RuntimeError>)
    ensures
        match wired(string_views(required@), component_libraries(libraries@)) {
            Ok(all) => table.is_ok() && table.unwrap().wf() && table_views(
                table.unwrap()@.entries(),
            ) == capped(all),
            Err(error) => table.is_err() && table.unwrap_err() == error,
        },
{
    let ghost names = string_views(required@);
    let ghost loaded = component_libraries(libraries@);
    let mut caps = Capabilities::new();
    let ghost mut all: Seq<WiredCapability> = Seq::empty();
    let mut i: usize = 0;
    proof {
        assert(names.take(0) =~= Seq::<Seq<char>>::empty());
        assert(table_views(caps@.entries()) =~= capped(all));
    }
    while i < required.len()
        invariant
            i <= required@.len(),
            caps.wf(),
            names == string_views(required@),
            loaded == component_libraries(libraries@),
            wired(names.take(i as int), loaded) == Ok::<Seq<WiredCapability>, RuntimeError>(all),
            table_views(caps@.entries()) == capped(all),
        decreases required@.len() - i,
    {
        let name = &required[i];
        proof {
            assert(names.take(i + 1).drop_last() =~= names.take(i as int));
            assert(names.take(i + 1).last() == name@);
        }
        let at = find_library(libraries, name.as_str());
        if at >= libraries.len() {
            proof {
                lemma_wired_prefix_error(names, loaded, i + 1);
            }
            return Err(RuntimeError::CapabilityNotFound);
        }
        let library = libraries[at].library();
        assert(library@ == loaded[at as int]);
        match add_provided(&mut caps, library) {
            Ok(_) => {
                proof {
                    let more = resolved(library@.summary.provided(), library@.symbols).unwrap();
                    lemma_capped_append(all, more);
                    all = all + more;
                }
            },
            Err(error) => {
                proof {
                    lemma_wired_prefix_error(names, loaded, i + 1);
                }
                return Err(error);
            },
        }
        i += 1;
    }
    proof {
        assert(names.take(i as int) =~= names);
    }
    Ok(caps)
}

/// The components of a runtime, in the reverse of the order in which their
/// plugins were loaded.
#[derive(Debug)]
pub struct Components {
    pub inner: ComponentsVec,
}

/// A service that is to be started: its name, the capability table and the
/// attributes that it is handed.
#[derive(Debug)]
pub struct ServiceStart {
    pub name: String,
    pub caps: Capabilities,
    pub attributes: String,
}

/// What a start of a service is: the service's name, its capabilities and
/// its attributes.
pub type StartView = (Seq<char>, Seq<WiredCapability>, Seq<char>);

impl View for ServiceStart {
    type V = StartView;

    open spec fn view(&self) -> StartView {
        (self.name@, table_views(self.caps@.entries()), self.attributes@)
    }
}

/// The views of a sequence of starts.
pub open spec fn start_views(starts: Seq<ServiceStart>) -> Seq<StartView> {
    Seq::new(starts.len(), |i: int| starts[i]@)
}

/// The attributes that a plugin is handed: those of its configuration, or
/// the empty text.
pub open spec fn attributes_text(library: LibraryView) -> Seq<char> {
    match library.config_attr_str {
        Some(given) => given,
        None => Seq::<char>::empty(),
    }
}

/// The component that a loaded plugin is: a service or a skill, as its
/// description says, with the requirements that the description names.
pub open spec fn is_component_of(component: ComponentsType, library: RTLibrary) -> bool {
    &&& component.spec_library() == library
    &&& component.spec_requires() == library@.summary.required()
    &&& (component is Service) == (library@.summary.library_type == RTLibraryType::Service)
}

/// The starts that are due for the services among `components`, from the
/// first to the last, each wired against all of `everyone`. A service whose
/// wiring fails fails the whole plan.
pub open spec fn start_plan(
    components: Seq<ComponentsType>,
    everyone: Seq<ComponentsType>,
) -> Result<Seq<StartView>, RuntimeError>
    decreases components.len(),
{
    if components.len() == 0 {
        Ok(Seq::empty())
    } else {
        match start_plan(components.drop_last(), everyone) {
            Err(error) => Err(error),
            Ok(front) => match components.last() {
                ComponentsType::Skill(_) => Ok(front),
                ComponentsType::Service(service) => match wired(
                    string_views(service.requires@),
                    component_libraries(everyone),
                ) {
                    Err(error) => Err(error),
                    Ok(all) => Ok(
                        front.push(
                            (
                                service.library@.summary.name,
                                capped(all),
                                attributes_text(service.library@),
                            ),
                        ),
                    ),
                },
            },
        }
    }
}

/// A service that cannot be wired fails the whole plan.
pub proof fn lemma_start_plan_prefix_error(
    components: Seq<ComponentsType>,
    everyone: Seq<ComponentsType>,
    upto: int,
)
    requires
        0 <= upto <= components.len(),
        start_plan(components.take(upto), everyone).is_err(),
    ensures
        start_plan(components, everyone) == start_plan(components.take(upto), everyone),
    decreases components.len() - upto,
{
    if upto == components.len() {
        assert(components.take(upto) =~= components);
    } else {
        let front = components.drop_last();
        assert(front.take(upto) =~= components.take(upto));
        lemma_start_plan_prefix_error(front, everyone, upto);
    }
}

impl Components {
    /// The components that the loaded plugins are, in the reverse of the
    /// order in which the plugins are given.
    pub fn new(libraries: Vec<RTLibrary>) -> (components: Components)
        ensures
            components.inner@.len() == libraries@.len(),
            forall|i: int|
                0 <= i < libraries@.len() ==> is_component_of(
                    #[trigger] components.inner@[i],
                    libraries@[libraries@.len() - 1 - i],
                ),
    {
        let mut rest = libraries;
        let ghost given = rest@;
        let mut inner: ComponentsVec = Vec::new();
        while rest.len() > 0
            invariant
                given == libraries@,
                rest@.len() + inner@.len() == given.len(),
                rest@ == given.take(rest@.len() as int),
                forall|i: int|
                    0 <= i < inner@.len() ==> is_component_of(
                        #[trigger] inner@[i],
                        given[given.len() - 1 - i],
                    ),
            decreases rest@.len(),
        {
            let lib = rest.pop().unwrap();
            assert(lib == given[given.len() - 1 - inner@.len()]);
            let component = match lib.summary.library_type {
                RTLibraryType::Service => ComponentsType::Service(Service::new(lib)),
                RTLibraryType::Skill => ComponentsType::Skill(Skill::new(lib)),
            };
            inner.push(component);
            assert(rest@ =~= given.take(rest@.len() as int));
        }
        Components { inner }
    }

    /// The starts that are due, in their order: one for each service, from
    /// the component that was loaded last to the one that was loaded first,
    /// with the capability table that `create_caps` gives for the service's
    /// requirements and with the service's attributes. Skills are not
    /// started. A service that cannot be wired fails the whole plan, with
    /// the error of `create_caps`.
    pub fn start_services(&self) -> (plan: Result<Vec<ServiceStart>, RuntimeError>)
        ensures
            match start_plan(self.inner@, self.inner@) {
                Ok(starts) => plan.is_ok() && start_views(plan.unwrap()@) == starts,
                Err(error) => plan.is_err() && plan.unwrap_err() == error,
            },
    {
        let mut starts: Vec<ServiceStart> = Vec::new();
        let mut i: usize = 0;
        proof {
            assert(self.inner@.take(0) =~= Seq::<ComponentsType>::empty());
            assert(start_views(starts@) =~= Seq::<StartView>::empty());
        }
        while i < self.inner.len()
            invariant
                i <= self.inner@.len(),
                start_plan(self.inner@.take(i as int), self.inner@) == Ok::<
                    Seq<StartView>,
                    RuntimeError,
                >(start_views(starts@)),
            decreases self.inner@.len() - i,
        {
            proof {
                assert(self.inner@.take(i + 1).drop_last() =~= self.inner@.take(i as int));
                assert(self.inner@.take(i + 1).last() == self.inner@[i as int]);
            }
            match &self.inner[i] {
                ComponentsType::Service(service) => {
                    match create_caps(&service.requires, &self.inner) {
                        Ok(caps) => {
                            let ghost before = start_views(starts@);
                            let start = ServiceStart {
                                name: service.library.summary.name.clone(),
                                caps,
                                attributes: service.library.attributes().to_owned(),
                            };
                            let ghost added = start@;
                            starts.push(start);
                            assert(start_views(starts@) =~= before.push(added));
                        },
                        Err(error) => {
                            proof {
                                lemma_start_plan_prefix_error(self.inner@, self.inner@, i + 1);
                            }
                            return Err(error);
                        },
                    }
                },
                ComponentsType::Skill(_) => {},
            }
            i += 1;
        }
        proof {
            assert(self.inner@.take(i as int) =~= self.inner@);
        }
        Ok(starts)
    }
}

} // verus!

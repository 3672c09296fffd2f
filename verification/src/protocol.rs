//! Protocol descriptions: header fields, subtree types (ETTs), expert infos, and the
//! bookkeeping of the handles Wireshark hands back when they are registered.

use vstd::prelude::*;

use crate::name_table::NameTable;
use crate::plugin::{registrations_of, table_registrations, TableRegistration};
use crate::types::{
    DissectorDecodeFrom, ExpertGroup, ExpertSeverity, FieldDisplay, FieldType, RegistrationError,
};

verus! {

/// Identifier of the ETT that every protocol's root subtree uses.
pub const ROOT_ETT_ID: &'static str = "_root";

/// A header field ready to be registered with Wireshark.
#[derive(Clone)]
pub struct Field {
    pub id: String,
    pub name: String,
    pub abbrev: String,
    pub field_type: FieldType,
    pub display: FieldDisplay,
    pub strings: Option<Vec<(u32, String)>>,
    pub bitmask: u64,
    pub blurb: Option<String>,
}

/// Step-by-step construction of a [`Field`].
pub struct FieldBuilder {
    id: String,
    name: String,
    abbrev: String,
    field_type: Option<FieldType>,
    display: Option<FieldDisplay>,
    strings: Option<Vec<(u32, String)>>,
    bitmask: u64,
    blurb: Option<String>,
}

/// What a [`FieldBuilder`] holds so far.
pub struct FieldBuilderView {
    pub id: Seq<char>,
    pub name: Seq<char>,
    pub abbrev: Seq<char>,
    pub field_type: Option<FieldType>,
    pub display: Option<FieldDisplay>,
    pub strings: Option<Vec<(u32, String)>>,
    pub bitmask: u64,
    pub blurb: Option<Seq<char>>,
}

impl View for FieldBuilder {
    type V = FieldBuilderView;

    closed spec fn view(&self) -> FieldBuilderView {
        FieldBuilderView {
            id: self.id@,
            name: self.name@,
            abbrev: self.abbrev@,
            field_type: self.field_type,
            display: self.display,
            strings: self.strings,
            bitmask: self.bitmask,
            blurb: match self.blurb {
                Some(b) => Some(b@),
                None => None,
            },
        }
    }
}

impl FieldBuilder {
    /// A builder with no type, no display, no value strings, a zero bitmask and no blurb.
    pub fn new(id: &str, name: &str, abbrev: &str) -> (b: Self)
        ensures
            b@ == (FieldBuilderView {
                id: id@,
                name: name@,
                abbrev: abbrev@,
                field_type: None,
                display: None,
                strings: None,
                bitmask: 0,
                blurb: None,
            }),
    {
        FieldBuilder {
            id: id.to_owned(),
            name: name.to_owned(),
            abbrev: abbrev.to_owned(),
            field_type: None,
            display: None,
            strings: None,
            bitmask: 0,
            blurb: None,
        }
    }

    pub fn field_type(self, field_type: FieldType) -> (b: Self)
        ensures
            b@ == (FieldBuilderView { field_type: Some(field_type), ..self@ }),
    {
        FieldBuilder { field_type: Some(field_type), ..self }
    }

    pub fn display(self, display: FieldDisplay) -> (b: Self)
        ensures
            b@ == (FieldBuilderView { display: Some(display), ..self@ }),
    {
        FieldBuilder { display: Some(display), ..self }
    }

    pub fn strings(self, strings: Vec<(u32, String)>) -> (b: Self)
        ensures
            b@ == (FieldBuilderView { strings: Some(strings), ..self@ }),
    {
        FieldBuilder { strings: Some(strings), ..self }
    }

    pub fn bitmask(self, bitmask: u64) -> (b: Self)
        ensures
            b@ == (FieldBuilderView { bitmask, ..self@ }),
    {
        FieldBuilder { bitmask, ..self }
    }

    pub fn blurb(self, blurb: &str) -> (b: Self)
        ensures
            b@ == (FieldBuilderView { blurb: Some(blurb@), ..self@ }),
    {
        FieldBuilder { blurb: Some(blurb.to_owned()), ..self }
    }

    /// The finished field. A field type is mandatory; a missing display defaults to
    /// [`FieldDisplay::BaseNone`].
    pub fn build(self) -> (r: Result<Field, RegistrationError>)
        ensures
            self@.field_type is None <==> r == Err::<Field, _>(RegistrationError::MissingFieldType),
            self@.field_type is Some <==> r is Ok,
            r matches Ok(f) ==> {
                &&& f.id@ == self@.id
                &&& f.name@ == self@.name
                &&& f.abbrev@ == self@.abbrev
                &&& Some(f.field_type) == self@.field_type
                &&& f.display == match self@.display {
                    Some(d) => d,
                    None => FieldDisplay::BaseNone,
                }
                &&& f.strings == self@.strings
                &&& f.bitmask == self@.bitmask
                &&& f.blurb.is_some() == self@.blurb.is_some()
                &&& f.blurb matches Some(b) ==> self@.blurb == Some(b@)
            },
    {
        let field_type = match self.field_type {
            Some(t) => t,
            None => return Err(RegistrationError::MissingFieldType),
        };
        let display = match self.display {
            Some(d) => d,
            None => FieldDisplay::default(),
        };
        Ok(Field {
            id: self.id,
            name: self.name,
            abbrev: self.abbrev,
            field_type,
            display,
            strings: self.strings,
            bitmask: self.bitmask,
            blurb: self.blurb,
        })
    }
}


/// Handle of a registered header field.
#[derive(Clone, Copy, Debug, PartialEq, Eq)]
pub struct FieldHandle {
    pub handle: i32,
}

/// Handle of a registered subtree type (ETT).
#[derive(Clone, Copy, Debug, PartialEq, Eq)]
pub struct EttHandle {
    pub handle: i32,
}

/// Handle of a registered expert info item.
#[derive(Clone, Copy, Debug, PartialEq, Eq)]
pub struct ExpertFieldHandle {
    pub ei: i32,
    pub hf: i32,
}

/// A subtree type (ETT): an identifier and a human readable name.
#[derive(Clone)]
pub struct Ett {
    id: String,
    name: String,
}

impl View for Ett {
    type V = (Seq<char>, Seq<char>);

    closed spec fn view(&self) -> (Seq<char>, Seq<char>) {
        (self.id@, self.name@)
    }
}

impl Ett {
    pub fn new(id: &str, name: &str) -> (e: Self)
        ensures
            e@ == (id@, name@),
    {
        Ett { id: id.to_owned(), name: name.to_owned() }
    }

    pub fn id(&self) -> (r: &String)
        ensures
            r@ == self@.0,
    {
        &self.id
    }

    pub fn name(&self) -> (r: &String)
        ensures
            r@ == self@.1,
    {
        &self.name
    }
}

/// What an expert info item is made of.
pub struct ExpertInfoView {
    pub id: Seq<char>,
    pub group: ExpertGroup,
    pub severity: ExpertSeverity,
    pub summary: Seq<char>,
}

/// An expert info item waiting to be registered.
#[derive(Clone)]
pub struct ExpertFieldInfo {
    id: String,
    group: ExpertGroup,
    severity: ExpertSeverity,
    summary: String,
}

impl View for ExpertFieldInfo {
    type V = ExpertInfoView;

    closed spec fn view(&self) -> ExpertInfoView {
        ExpertInfoView {
            id: self.id@,
            group: self.group,
            severity: self.severity,
            summary: self.summary@,
        }
    }
}

impl ExpertFieldInfo {
    pub fn id(&self) -> (r: &String)
        ensures
            r@ == self@.id,
    {
        &self.id
    }

    pub fn group(&self) -> (r: ExpertGroup)
        ensures
            r == self@.group,
    {
        self.group
    }

    pub fn severity(&self) -> (r: ExpertSeverity)
        ensures
            r == self@.severity,
    {
        self.severity
    }

    pub fn summary(&self) -> (r: &String)
        ensures
            r@ == self@.summary,
    {
        &self.summary
    }
}

/// The expert infos of a protocol and the handles they were registered under.
pub struct ExpertModule {
    expert_info_defs: Vec<ExpertFieldInfo>,
    expert_fields_handles: NameTable<(i32, i32)>,
}

/// Views of a sequence of ETTs and of expert infos.
pub open spec fn ett_views(s: Seq<Ett>) -> Seq<(Seq<char>, Seq<char>)> {
    s.map_values(|e: Ett| e@)
}

pub open spec fn expert_views(s: Seq<ExpertFieldInfo>) -> Seq<ExpertInfoView> {
    s.map_values(|e: ExpertFieldInfo| e@)
}

/// The name of the root subtree of a protocol called `name`.
pub open spec fn root_ett_name(name: Seq<char>) -> Seq<char> {
    name + " Protocol Tree"@
}

/// The filter name under which an expert info `id` of a protocol with filter `filter`
/// is registered.
pub open spec fn expert_name(filter: Seq<char>, id: Seq<char>) -> Seq<char> {
    filter + "."@ + id
}

/// What a [`ProtocolBuilder`] holds so far.
pub struct ProtocolBuilderView<D> {
    pub name: Seq<char>,
    pub abbrev: Seq<char>,
    pub filter: Seq<char>,
    pub dissector_fn: Option<D>,
    pub fields: Seq<Field>,
    pub ett: Seq<(Seq<char>, Seq<char>)>,
    pub expert_infos: Seq<ExpertInfoView>,
    pub match_definitions: Seq<DissectorDecodeFrom>,
}

/// Step-by-step construction of a [`Protocol`]. `D` is the dissector that will be
/// handed the packets of the protocol.
pub struct ProtocolBuilder<D> {
    name: String,
    abbrev: String,
    filter: String,
    dissector_fn: Option<D>,
    fields: Vec<Field>,
    ett: Vec<Ett>,
    expert_infos: Vec<ExpertFieldInfo>,
    match_definitions: Vec<DissectorDecodeFrom>,
}

impl<D> View for ProtocolBuilder<D> {
    type V = ProtocolBuilderView<D>;

    closed spec fn view(&self) -> ProtocolBuilderView<D> {
        ProtocolBuilderView {
            name: self.name@,
            abbrev: self.abbrev@,
            filter: self.filter@,
            dissector_fn: self.dissector_fn,
            fields: self.fields@,
            ett: ett_views(self.ett@),
            expert_infos: expert_views(self.expert_infos@),
            match_definitions: self.match_definitions@,
        }
    }
}

impl<D> ProtocolBuilder<D> {
    pub fn new(name: &str, abbrev: &str, filter: &str) -> (b: Self)
        ensures
            b@ == (ProtocolBuilderView::<D> {
                name: name@,
                abbrev: abbrev@,
                filter: filter@,
                dissector_fn: None,
                fields: Seq::empty(),
                ett: Seq::empty(),
                expert_infos: Seq::empty(),
                match_definitions: Seq::empty(),
            }),
    {
        let b = ProtocolBuilder {
            name: name.to_owned(),
            abbrev: abbrev.to_owned(),
            filter: filter.to_owned(),
            dissector_fn: None,
            fields: Vec::new(),
            ett: Vec::new(),
            expert_infos: Vec::new(),
            match_definitions: Vec::new(),
        };
        assert(ett_views(b.ett@) =~= Seq::empty());
        assert(expert_views(b.expert_infos@) =~= Seq::empty());
        b
    }

    pub fn dissector(self, dissector: D) -> (b: Self)
        ensures
            b@ == (ProtocolBuilderView { dissector_fn: Some(dissector), ..self@ }),
    {
        ProtocolBuilder { dissector_fn: Some(dissector), ..self }
    }

    pub fn field(self, field: Field) -> (b: Self)
        ensures
            b@ == (ProtocolBuilderView { fields: self@.fields.push(field), ..self@ }),
    {
        let mut b = self;
        b.fields.push(field);
        b
    }

    pub fn ett(self, id: &str, name: &str) -> (b: Self)
        ensures
            b@ == (ProtocolBuilderView { ett: self@.ett.push((id@, name@)), ..self@ }),
    {
        let mut b = self;
        let e = Ett::new(id, name);
        b.ett.push(e);
        assert(ett_views(b.ett@) =~= ett_views(self.ett@).push((id@, name@)));
        b
    }

    pub fn expert_info(
        self,
        id: &str,
        group: ExpertGroup,
        severity: ExpertSeverity,
        summary: &str,
    ) -> (b: Self)
        ensures
            b@ == (ProtocolBuilderView {
                expert_infos: self@.expert_infos.push(
                    ExpertInfoView { id: id@, group, severity, summary: summary@ },
                ),
                ..self@
            }),
    {
        let mut b = self;
        let info = ExpertFieldInfo {
            id: id.to_owned(),
            group,
            severity,
            summary: summary.to_owned(),
        };
        b.expert_infos.push(info);
        assert(expert_views(b.expert_infos@) =~= expert_views(self.expert_infos@).push(
            ExpertInfoView { id: id@, group, severity, summary: summary@ },
        ));
        b
    }

    pub fn decode_from(self, decode_from: DissectorDecodeFrom) -> (b: Self)
        ensures
            b@ == (ProtocolBuilderView {
                match_definitions: self@.match_definitions.push(decode_from),
                ..self@
            }),
    {
        let mut b = self;
        b.match_definitions.push(decode_from);
        b
    }

    pub fn name(&self) -> (r: &String)
        ensures
            r@ == self@.name,
    {
        &self.name
    }

    pub fn abbrev(&self) -> (r: &String)
        ensures
            r@ == self@.abbrev,
    {
        &self.abbrev
    }

    pub fn filter(&self) -> (r: &String)
        ensures
            r@ == self@.filter,
    {
        &self.filter
    }

    /// Whether a dissector has been given: without one, building fails.
    pub fn has_dissector(&self) -> (r: bool)
        ensures
            r == self@.dissector_fn.is_some(),
    {
        self.dissector_fn.is_some()
    }

    /// Turns the description into a protocol whose registration with Wireshark returned
    /// `proto_handle`. The ETT list starts with the root subtree, followed by the ETTs that
    /// were added, in order. No field, ETT or expert info is registered yet.
    pub fn build(self, proto_handle: i32) -> (r: Result<Protocol<D>, RegistrationError>)
        ensures
            self@.dissector_fn is None <==> r == Err::<Protocol<D>, _>(
                RegistrationError::MissingDissector,
            ),
            self@.dissector_fn is Some <==> r is Ok,
            r matches Ok(p) ==> {
                &&& p.wf()
                &&& p@.name == self@.name
                &&& p@.abbrev == self@.abbrev
                &&& p@.filter == self@.filter
                &&& p@.proto_handle == proto_handle
                &&& Some(p.spec_dissector()) == self@.dissector_fn
                &&& p@.ett_defs == seq![(ROOT_ETT_ID@, root_ett_name(self@.name))] + self@.ett
                &&& p@.field_defs == self@.fields
                &&& p@.expert_info_defs == self@.expert_infos
                &&& p@.field_handles == Map::<Seq<char>, i32>::empty()
                &&& p@.ett_handles == Map::<Seq<char>, i32>::empty()
                &&& p@.expert_handles == Map::<Seq<char>, (i32, i32)>::empty()
                &&& p.spec_match_definitions() matches Some(m) && m@ == self@.match_definitions
            },
    {
        let ProtocolBuilder {
            name,
            abbrev,
            filter,
            dissector_fn,
            fields,
            ett,
            expert_infos,
            match_definitions,
        } = self;
        let dissector = match dissector_fn {
            Some(d) => d,
            None => return Err(RegistrationError::MissingDissector),
        };
        let mut root_name = name.clone();
        root_name.append(" Protocol Tree");
        let root = Ett { id: ROOT_ETT_ID.to_owned(), name: root_name };
        let mut ett_defs = vec![root];
        let mut ett = ett;
        let ghost ett_seq = ett@;
        ett_defs.append(&mut ett);
        assert(ett_views(ett_defs@) =~= seq![(ROOT_ETT_ID@, root_ett_name(name@))] + ett_views(
            ett_seq,
        ));
        Ok(Protocol {
            name,
            abbrev,
            filter,
            proto_handle,
            ett_defs,
            ett_handles: NameTable::new(),
            dissector_fn: dissector,
            field_defs: fields,
            field_handles: NameTable::new(),
            expert_module: ExpertModule {
                expert_info_defs: expert_infos,
                expert_fields_handles: NameTable::new(),
            },
            match_definitions: Some(match_definitions),
        })
    }
}

/// What a [`Protocol`] holds: its definitions and the handles registered so far.
pub struct ProtocolView {
    pub name: Seq<char>,
    pub abbrev: Seq<char>,
    pub filter: Seq<char>,
    pub proto_handle: i32,
    pub ett_defs: Seq<(Seq<char>, Seq<char>)>,
    pub field_defs: Seq<Field>,
    pub expert_info_defs: Seq<ExpertInfoView>,
    pub field_handles: Map<Seq<char>, i32>,
    pub ett_handles: Map<Seq<char>, i32>,
    pub expert_handles: Map<Seq<char>, (i32, i32)>,
}

/// A protocol: its definitions, its dissector, and the handles Wireshark gave its
/// fields, ETTs and expert infos.
pub struct Protocol<D> {
    name: String,
    pub abbrev: String,
    filter: String,
    pub proto_handle: i32,
    ett_defs: Vec<Ett>,
    ett_handles: NameTable<i32>,
    pub dissector_fn: D,
    field_defs: Vec<Field>,
    field_handles: NameTable<i32>,
    expert_module: ExpertModule,
    pub match_definitions: Option<Vec<DissectorDecodeFrom>>,
}

impl<D> View for Protocol<D> {
    type V = ProtocolView;

    closed spec fn view(&self) -> ProtocolView {
        ProtocolView {
            name: self.name@,
            abbrev: self.abbrev@,
            filter: self.filter@,
            proto_handle: self.proto_handle,
            ett_defs: ett_views(self.ett_defs@),
            field_defs: self.field_defs@,
            expert_info_defs: expert_views(self.expert_module.expert_info_defs@),
            field_handles: self.field_handles.view(),
            ett_handles: self.ett_handles.view(),
            expert_handles: self.expert_module.expert_fields_handles.view(),
        }
    }
}

/// The ETT handle table after the handles `handles[..n]` were recorded for the ETT
/// definitions `defs[..n]`, in order, starting from `m`.
pub open spec fn ett_table_after(
    m: Map<Seq<char>, i32>,
    defs: Seq<(Seq<char>, Seq<char>)>,
    handles: Seq<i32>,
    n: nat,
) -> Map<Seq<char>, i32>
    decreases n,
{
    if n == 0 {
        m
    } else {
        ett_table_after(m, defs, handles, (n - 1) as nat).insert(
            defs[n - 1].0,
            handles[n - 1],
        )
    }
}

impl<D> Protocol<D> {
    pub closed spec fn spec_dissector(&self) -> D {
        self.dissector_fn
    }

    pub closed spec fn spec_match_definitions(&self) -> Option<Vec<DissectorDecodeFrom>> {
        self.match_definitions
    }

    /// Internal consistency of the handle tables.
    pub closed spec fn wf(&self) -> bool {
        &&& self.ett_handles.wf()
        &&& self.field_handles.wf()
        &&& self.expert_module.expert_fields_handles.wf()
    }

    pub fn name(&self) -> (r: &String)
        ensures
            r@ == self@.name,
    {
        &self.name
    }

    pub fn filter(&self) -> (r: &String)
        ensures
            r@ == self@.filter,
    {
        &self.filter
    }

    pub fn get_proto_handle(&self) -> (r: i32)
        ensures
            r == self@.proto_handle,
    {
        self.proto_handle
    }

    pub fn ett_defs(&self) -> (r: &Vec<Ett>)
        ensures
            ett_views(r@) == self@.ett_defs,
    {
        &self.ett_defs
    }

    pub fn field_defs(&self) -> (r: &Vec<Field>)
        ensures
            r@ == self@.field_defs,
    {
        &self.field_defs
    }

    pub fn expert_info_defs(&self) -> (r: &Vec<ExpertFieldInfo>)
        ensures
            expert_views(r@) == self@.expert_info_defs,
    {
        &self.expert_module.expert_info_defs
    }

    /// The handle of an ETT that has been registered. Asking for an ETT that was never
    /// registered is a programming error.
    pub fn get_ett_handle(&self, id: &str) -> (r: i32)
        requires
            self.wf(),
            self@.ett_handles.contains_key(id@),
        ensures
            r == self@.ett_handles[id@],
    {
        match self.ett_handles.get(id) {
            Some(h) => *h,
            None => -1,
        }
    }

    /// The handle of a registered ETT, if `id` names one.
    pub fn find_ett_handle(&self, id: &str) -> (r: Option<EttHandle>)
        requires
            self.wf(),
        ensures
            match r {
                Some(h) => self@.ett_handles.contains_key(id@) && h.handle == self@.ett_handles[id@],
                None => !self@.ett_handles.contains_key(id@),
            },
    {
        match self.ett_handles.get(id) {
            Some(h) => Some(EttHandle { handle: *h }),
            None => None,
        }
    }

    /// The handle of a registered header field, if `id` names one.
    pub fn get_field_handle(&self, id: &str) -> (r: Option<FieldHandle>)
        requires
            self.wf(),
        ensures
            match r {
                Some(h) => self@.field_handles.contains_key(id@) && h.handle
                    == self@.field_handles[id@],
                None => !self@.field_handles.contains_key(id@),
            },
    {
        match self.field_handles.get(id) {
            Some(h) => Some(FieldHandle { handle: *h }),
            None => None,
        }
    }

    /// The handles of a registered expert info item, if `id` names one.
    pub fn get_expert_field(&self, id: &str) -> (r: Option<ExpertFieldHandle>)
        requires
            self.wf(),
        ensures
            match r {
                Some(h) => self@.expert_handles.contains_key(id@) && (h.ei, h.hf)
                    == self@.expert_handles[id@],
                None => !self@.expert_handles.contains_key(id@),
            },
    {
        match self.expert_module.expert_fields_handles.get(id) {
            Some(h) => Some(ExpertFieldHandle { ei: h.0, hf: h.1 }),
            None => None,
        }
    }

    /// Records the handle Wireshark assigned to the field `field_defs[index]`. Wireshark
    /// leaves the handle at -1 when registration fails; then nothing is recorded.
    pub fn record_field_handle(&mut self, index: usize, handle: i32) -> (r: Result<
        (),
        RegistrationError,
    >)
        requires
            old(self).wf(),
            index < old(self)@.field_defs.len(),
        ensures
            final(self).wf(),
            final(self).spec_dissector() == old(self).spec_dissector(),
            final(self).spec_match_definitions() == old(self).spec_match_definitions(),
            handle == -1 <==> r == Err::<(), _>(RegistrationError::RegistrationFailed),
            r is Ok <==> handle != -1,
            handle == -1 ==> final(self)@ == old(self)@,
            handle != -1 ==> final(self)@ == (ProtocolView {
                field_handles: old(self)@.field_handles.insert(
                    old(self)@.field_defs[index as int].id@,
                    handle,
                ),
                ..old(self)@
            }),
    {
        if handle == -1 {
            return Err(RegistrationError::RegistrationFailed);
        }
        let id = self.field_defs[index].id.clone();
        self.field_handles.insert(id, handle);
        Ok(())
    }

    /// Records the handles Wireshark assigned to the ETTs, `handles[i]` being the handle
    /// of `ett_defs[i]`. When an identifier occurs twice, the later handle is kept.
    pub fn record_ett_handles(&mut self, handles: &Vec<i32>)
        requires
            old(self).wf(),
            handles@.len() == old(self)@.ett_defs.len(),
        ensures
            final(self).wf(),
            final(self).spec_dissector() == old(self).spec_dissector(),
            final(self).spec_match_definitions() == old(self).spec_match_definitions(),
            final(self)@ == (ProtocolView {
                ett_handles: ett_table_after(
                    old(self)@.ett_handles,
                    old(self)@.ett_defs,
                    handles@,
                    handles@.len(),
                ),
                ..old(self)@
            }),
    {
        let ghost start = self@;
        let mut i: usize = 0;
        while i < handles.len()
            invariant
                self.wf(),
                i <= handles@.len(),
                handles@.len() == start.ett_defs.len(),
                self.spec_dissector() == old(self).spec_dissector(),
                self.spec_match_definitions() == old(self).spec_match_definitions(),
                self@ == (ProtocolView {
                    ett_handles: ett_table_after(start.ett_handles, start.ett_defs, handles@, i as nat),
                    ..start
                }),
            decreases handles@.len() - i,
        {
            let id = self.ett_defs[i].id.clone();
            assert(id@ == start.ett_defs[i as int].0);
            self.ett_handles.insert(id, handles[i]);
            i = i + 1;
        }
    }

    /// The name under which expert info `expert_info_defs[index]` is registered: the
    /// protocol's filter, a dot, and the item's identifier.
    pub fn expert_field_name(&self, index: usize) -> (r: String)
        requires
            index < self@.expert_info_defs.len(),
        ensures
            r@ == expert_name(self@.filter, self@.expert_info_defs[index as int].id),
    {
        let mut s = self.filter.clone();
        s.append(".");
        s.append(self.expert_module.expert_info_defs[index].id.as_str());
        s
    }

    /// Records the handles Wireshark assigned to expert info `expert_info_defs[index]`.
    /// Registration failed when either handle is still -1; then nothing is recorded.
    pub fn record_expert_handle(&mut self, index: usize, ei: i32, hf: i32) -> (r: Result<
        (),
        RegistrationError,
    >)
        requires
            old(self).wf(),
            index < old(self)@.expert_info_defs.len(),
        ensures
            final(self).wf(),
            final(self).spec_dissector() == old(self).spec_dissector(),
            final(self).spec_match_definitions() == old(self).spec_match_definitions(),
            (ei == -1 || hf == -1) <==> r == Err::<(), _>(RegistrationError::RegistrationFailed),
            r is Ok <==> (ei != -1 && hf != -1),
            r is Err ==> final(self)@ == old(self)@,
            r is Ok ==> final(self)@ == (ProtocolView {
                expert_handles: old(self)@.expert_handles.insert(
                    old(self)@.expert_info_defs[index as int].id,
                    (ei, hf),
                ),
                ..old(self)@
            }),
    {
        if ei == -1 || hf == -1 {
            return Err(RegistrationError::RegistrationFailed);
        }
        let id = self.expert_module.expert_info_defs[index].id.clone();
        self.expert_module.expert_fields_handles.insert(id, (ei, hf));
        Ok(())
    }
}


/// The identifiers of a list of header fields, in order.
pub open spec fn field_ids(defs: Seq<Field>) -> Seq<Seq<char>> {
    defs.map_values(|f: Field| f.id@)
}

/// The identifiers of a list of expert infos, in order.
pub open spec fn expert_ids(defs: Seq<ExpertInfoView>) -> Seq<Seq<char>> {
    defs.map_values(|e: ExpertInfoView| e.id)
}

/// A handle table after `vals[..n]` were recorded under `ids[..n]`, in order, starting from
/// `m`.
pub open spec fn table_after<T>(m: Map<Seq<char>, T>, ids: Seq<Seq<char>>, vals: Seq<T>, n: nat) -> Map<
    Seq<char>,
    T,
>
    decreases n,
{
    if n == 0 {
        m
    } else {
        table_after(m, ids, vals, (n - 1) as nat).insert(ids[n - 1], vals[n - 1])
    }
}

/// Whether any of the handles is -1, Wireshark's mark of a failed registration.
pub open spec fn any_failed(handles: Seq<i32>) -> bool {
    exists|i: int| 0 <= i < handles.len() && handles[i] == -1
}

/// Whether any of the expert handle pairs holds -1.
pub open spec fn any_pair_failed(handles: Seq<(i32, i32)>) -> bool {
    exists|i: int| 0 <= i < handles.len() && (handles[i].0 == -1 || handles[i].1 == -1)
}

impl<D> Protocol<D> {
    /// Records the handles Wireshark assigned to all header fields, `handles[i]` being that
    /// of `field_defs[i]`. When one of them is -1 a registration failed, and nothing is
    /// recorded.
    pub fn record_field_handles(&mut self, handles: &Vec<i32>) -> (r: Result<(), RegistrationError>)
        requires
            old(self).wf(),
            handles@.len() == old(self)@.field_defs.len(),
        ensures
            final(self).wf(),
            final(self).spec_dissector() == old(self).spec_dissector(),
            final(self).spec_match_definitions() == old(self).spec_match_definitions(),
            any_failed(handles@) <==> r == Err::<(), _>(RegistrationError::RegistrationFailed),
            r is Ok <==> !any_failed(handles@),
            r is Err ==> final(self)@ == old(self)@,
            r is Ok ==> final(self)@ == (ProtocolView {
                field_handles: table_after(
                    old(self)@.field_handles,
                    field_ids(old(self)@.field_defs),
                    handles@,
                    handles@.len(),
                ),
                ..old(self)@
            }),
    {
        let mut k: usize = 0;
        while k < handles.len()
            invariant
                k <= handles@.len(),
                forall|j: int| 0 <= j < k ==> handles@[j] != -1,
                self.wf(),
                self@ == old(self)@,
                self.spec_dissector() == old(self).spec_dissector(),
                self.spec_match_definitions() == old(self).spec_match_definitions(),
            decreases handles@.len() - k,
        {
            if handles[k] == -1 {
                assert(handles@[k as int] == -1);
                return Err(RegistrationError::RegistrationFailed);
            }
            k = k + 1;
        }
        let ghost start = self@;
        let mut i: usize = 0;
        while i < handles.len()
            invariant
                self.wf(),
                i <= handles@.len(),
                handles@.len() == start.field_defs.len(),
                forall|j: int| 0 <= j < handles@.len() ==> handles@[j] != -1,
                self.spec_dissector() == old(self).spec_dissector(),
                self.spec_match_definitions() == old(self).spec_match_definitions(),
                start == old(self)@,
                self@ == (ProtocolView {
                    field_handles: table_after(start.field_handles, field_ids(start.field_defs), handles@, i as nat),
                    ..start
                }),
            decreases handles@.len() - i,
        {
            let r = self.record_field_handle(i, handles[i]);
            assert(field_ids(start.field_defs)[i as int] == start.field_defs[i as int].id@);
            i = i + 1;
        }
        Ok(())
    }

    /// Records the handles Wireshark assigned to all expert infos, `handles[i]` being the
    /// pair of `expert_info_defs[i]`. When a handle is -1 a registration failed, and nothing
    /// is recorded.
    pub fn record_expert_handles(&mut self, handles: &Vec<(i32, i32)>) -> (r: Result<(), RegistrationError>)
        requires
            old(self).wf(),
            handles@.len() == old(self)@.expert_info_defs.len(),
        ensures
            final(self).wf(),
            final(self).spec_dissector() == old(self).spec_dissector(),
            final(self).spec_match_definitions() == old(self).spec_match_definitions(),
            any_pair_failed(handles@) <==> r == Err::<(), _>(RegistrationError::RegistrationFailed),
            r is Ok <==> !any_pair_failed(handles@),
            r is Err ==> final(self)@ == old(self)@,
            r is Ok ==> final(self)@ == (ProtocolView {
                expert_handles: table_after(
                    old(self)@.expert_handles,
                    expert_ids(old(self)@.expert_info_defs),
                    handles@,
                    handles@.len(),
                ),
                ..old(self)@
            }),
    {
        let mut k: usize = 0;
        while k < handles.len()
            invariant
                k <= handles@.len(),
                forall|j: int| 0 <= j < k ==> handles@[j].0 != -1 && handles@[j].1 != -1,
                self.wf(),
                self@ == old(self)@,
                self.spec_dissector() == old(self).spec_dissector(),
                self.spec_match_definitions() == old(self).spec_match_definitions(),
            decreases handles@.len() - k,
        {
            if handles[k].0 == -1 || handles[k].1 == -1 {
                assert(handles@[k as int].0 == -1 || handles@[k as int].1 == -1);
                return Err(RegistrationError::RegistrationFailed);
            }
            k = k + 1;
        }
        let ghost start = self@;
        let mut i: usize = 0;
        while i < handles.len()
            invariant
                self.wf(),
                i <= handles@.len(),
                handles@.len() == start.expert_info_defs.len(),
                forall|j: int| 0 <= j < handles@.len() ==> handles@[j].0 != -1 && handles@[j].1 != -1,
                self.spec_dissector() == old(self).spec_dissector(),
                self.spec_match_definitions() == old(self).spec_match_definitions(),
                start == old(self)@,
                self@ == (ProtocolView {
                    expert_handles: table_after(start.expert_handles, expert_ids(start.expert_info_defs), handles@, i as nat),
                    ..start
                }),
            decreases handles@.len() - i,
        {
            let (ei, hf) = handles[i];
            let r = self.record_expert_handle(i, ei, hf);
            assert(expert_ids(start.expert_info_defs)[i as int] == start.expert_info_defs[i as int].id);
            i = i + 1;
        }
        Ok(())
    }
}

impl<D> Protocol<D> {
    pub fn abbrev(&self) -> (r: &String)
        ensures
            r@ == self@.abbrev,
    {
        &self.abbrev
    }

    /// The dissector-table registrations of this protocol's decode-from definitions, in
    /// order; none when it has no definitions.
    pub fn handoff_registrations(&self) -> (r: Vec<TableRegistration>)
        ensures
            r@ == match self.spec_match_definitions() {
                Some(defs) => registrations_of(defs@),
                None => Seq::empty(),
            },
    {
        match &self.match_definitions {
            Some(defs) => table_registrations(defs),
            None => Vec::new(),
        }
    }
}


/// A handle recorded for a field is the one found under the field's identifier, and the
/// handles of the other identifiers stay as they were.
pub proof fn law_recorded_field_handle_is_found(
    before: ProtocolView,
    index: int,
    handle: i32,
    other: Seq<char>,
)
    requires
        0 <= index < before.field_defs.len(),
        handle != -1,
    ensures
        ({
            let id = before.field_defs[index].id@;
            let after = ProtocolView {
                field_handles: before.field_handles.insert(id, handle),
                ..before
            };
            &&& after.field_handles.contains_key(id)
            &&& after.field_handles[id] == handle
            &&& other != id ==> (after.field_handles.contains_key(other)
                == before.field_handles.contains_key(other) && after.field_handles[other]
                == before.field_handles[other])
            &&& after.ett_handles == before.ett_handles
            &&& after.expert_handles == before.expert_handles
        }),
{
}

/// Every identifier under which a handle was recorded has one afterwards, the one recorded
/// last under it.
pub proof fn lemma_table_after_has_ids<T>(m: Map<Seq<char>, T>, ids: Seq<Seq<char>>, vals: Seq<T>, n: nat, i: int)
    requires
        0 <= i < n,
    ensures
        table_after(m, ids, vals, n).contains_key(ids[i]),
    decreases n,
{
    if i < n - 1 {
        lemma_table_after_has_ids(m, ids, vals, (n - 1) as nat, i);
    }
}

proof fn lemma_ett_table_after_has_ids(
    m: Map<Seq<char>, i32>,
    defs: Seq<(Seq<char>, Seq<char>)>,
    handles: Seq<i32>,
    n: nat,
    i: int,
)
    requires
        0 <= i < n,
    ensures
        ett_table_after(m, defs, handles, n).contains_key(defs[i].0),
    decreases n,
{
    if i < n - 1 {
        lemma_ett_table_after_has_ids(m, defs, handles, (n - 1) as nat, i);
    }
}

/// Once the handles of a protocol's fields, ETTs and expert infos are recorded (none of
/// them marking a failure), every field, every ETT and every expert info of the protocol
/// has a handle.
pub proof fn law_registration_gives_every_handle(
    p: ProtocolView,
    field_handles: Seq<i32>,
    ett_handles: Seq<i32>,
    expert_handles: Seq<(i32, i32)>,
)
    requires
        field_handles.len() == p.field_defs.len(),
        ett_handles.len() == p.ett_defs.len(),
        expert_handles.len() == p.expert_info_defs.len(),
    ensures
        forall|i: int| 0 <= i < p.field_defs.len() ==> #[trigger] table_after(
            p.field_handles,
            field_ids(p.field_defs),
            field_handles,
            field_handles.len(),
        ).contains_key(p.field_defs[i].id@),
        forall|i: int| 0 <= i < p.ett_defs.len() ==> #[trigger] ett_table_after(
            p.ett_handles,
            p.ett_defs,
            ett_handles,
            ett_handles.len(),
        ).contains_key(p.ett_defs[i].0),
        forall|i: int| 0 <= i < p.expert_info_defs.len() ==> #[trigger] table_after(
            p.expert_handles,
            expert_ids(p.expert_info_defs),
            expert_handles,
            expert_handles.len(),
        ).contains_key(p.expert_info_defs[i].id),
{
    assert forall|i: int| 0 <= i < p.field_defs.len() implies #[trigger] table_after(
        p.field_handles,
        field_ids(p.field_defs),
        field_handles,
        field_handles.len(),
    ).contains_key(p.field_defs[i].id@) by {
        lemma_table_after_has_ids(p.field_handles, field_ids(p.field_defs), field_handles, field_handles.len(), i);
    }
    assert forall|i: int| 0 <= i < p.ett_defs.len() implies #[trigger] ett_table_after(
        p.ett_handles,
        p.ett_defs,
        ett_handles,
        ett_handles.len(),
    ).contains_key(p.ett_defs[i].0) by {
        lemma_ett_table_after_has_ids(p.ett_handles, p.ett_defs, ett_handles, ett_handles.len(), i);
    }
    assert forall|i: int| 0 <= i < p.expert_info_defs.len() implies #[trigger] table_after(
        p.expert_handles,
        expert_ids(p.expert_info_defs),
        expert_handles,
        expert_handles.len(),
    ).contains_key(p.expert_info_defs[i].id) by {
        lemma_table_after_has_ids(p.expert_handles, expert_ids(p.expert_info_defs), expert_handles, expert_handles.len(), i);
    }
}

} // verus!

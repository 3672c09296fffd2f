//! How the derive macros lay out the dissection of each field: what every field of a
//! type needs (its value kept for later fields, a tap context, a particular way of being
//! added to the tree), decided from the field's options.

use vstd::prelude::*;

verus! {

/// The text of an optional string.
pub open spec fn opt_view(o: Option<String>) -> Option<Seq<char>> {
    match o {
        Some(s) => Some(s@),
        None => None,
    }
}

/// The texts of a list of strings.
pub open spec fn seq_view(v: Seq<String>) -> Seq<Seq<char>> {
    v.map_values(|s: String| s@)
}

/// The set of names held by a list of strings.
pub open spec fn names_of(v: Seq<String>) -> Set<Seq<char>> {
    Set::new(|x: Seq<char>| exists|i: int| 0 <= i < v.len() && (#[trigger] v[i])@ == x)
}

/// Copies a list of names.
pub fn copy_names(v: &Vec<String>) -> (r: Vec<String>)
    ensures
        r@ == v@,
{
    let mut r: Vec<String> = Vec::new();
    let mut i: usize = 0;
    while i < v.len()
        invariant
            i <= v@.len(),
            r@ == v@.take(i as int),
        decreases v@.len() - i,
    {
        r.push(v[i].clone());
        i = i + 1;
        assert(r@ =~= v@.take(i as int));
    }
    assert(v@.take(v@.len() as int) =~= v@);
    r
}

/// Copies an optional name.
pub fn copy_opt_name(v: &Option<String>) -> (r: Option<String>)
    ensures
        r == *v,
{
    match v {
        Some(s) => Some(s.clone()),
        None => None,
    }
}

/// How a field is handed to a subdissector.
pub enum Subdissector {
    /// Through a "Decode As" table of the given name.
    DecodeAs(String),
    /// Through the named table, keyed by the values of the listed fields, tried in order.
    Table { table_name: String, fields: Vec<String> },
}

pub enum SubdissectorView {
    DecodeAs(Seq<char>),
    Table { table_name: Seq<char>, fields: Seq<Seq<char>> },
}

impl View for Subdissector {
    type V = SubdissectorView;

    open spec fn view(&self) -> SubdissectorView {
        match self {
            Subdissector::DecodeAs(t) => SubdissectorView::DecodeAs(t@),
            Subdissector::Table { table_name, fields } => SubdissectorView::Table {
                table_name: table_name@,
                fields: seq_view(fields@),
            },
        }
    }
}

impl Clone for Subdissector {
    fn clone(&self) -> (r: Self)
        ensures
            r@ == self@,
    {
        match self {
            Subdissector::DecodeAs(t) => Subdissector::DecodeAs(t.clone()),
            Subdissector::Table { table_name, fields } => Subdissector::Table {
                table_name: table_name.clone(),
                fields: copy_names(fields),
            },
        }
    }
}

/// The options a field can be given, with paths and types written as source text.
pub struct FieldOptions {
    pub taps: Vec<String>,
    pub consume_with: Option<String>,
    pub decode_with: Option<String>,
    pub get_variant: Option<String>,
    pub subdissector: Option<Subdissector>,
    pub hidden: Option<bool>,
    pub save: Option<bool>,
    pub size_hint: Option<String>,
    pub dispatch: Option<String>,
    pub bytes: Option<bool>,
    pub rename: Option<String>,
    pub ws_type: Option<String>,
    pub ws_display: Option<String>,
    pub ws_enc: Option<String>,
}

pub struct FieldOptionsView {
    pub taps: Seq<Seq<char>>,
    pub consume_with: Option<Seq<char>>,
    pub decode_with: Option<Seq<char>>,
    pub get_variant: Option<Seq<char>>,
    pub subdissector: Option<SubdissectorView>,
    pub hidden: Option<bool>,
    pub save: Option<bool>,
    pub size_hint: Option<Seq<char>>,
    pub dispatch: Option<Seq<char>>,
    pub bytes: Option<bool>,
    pub rename: Option<Seq<char>>,
    pub ws_type: Option<Seq<char>>,
    pub ws_display: Option<Seq<char>>,
    pub ws_enc: Option<Seq<char>>,
}

impl View for FieldOptions {
    type V = FieldOptionsView;

    open spec fn view(&self) -> FieldOptionsView {
        FieldOptionsView {
            taps: seq_view(self.taps@),
            consume_with: opt_view(self.consume_with),
            decode_with: opt_view(self.decode_with),
            get_variant: opt_view(self.get_variant),
            subdissector: match self.subdissector {
                Some(s) => Some(s@),
                None => None,
            },
            hidden: self.hidden,
            save: self.save,
            size_hint: opt_view(self.size_hint),
            dispatch: opt_view(self.dispatch),
            bytes: self.bytes,
            rename: opt_view(self.rename),
            ws_type: opt_view(self.ws_type),
            ws_display: opt_view(self.ws_display),
            ws_enc: opt_view(self.ws_enc),
        }
    }
}

impl Clone for FieldOptions {
    fn clone(&self) -> (r: Self)
        ensures
            r@ == self@,
    {
        FieldOptions {
            taps: copy_names(&self.taps),
            consume_with: copy_opt_name(&self.consume_with),
            decode_with: copy_opt_name(&self.decode_with),
            get_variant: copy_opt_name(&self.get_variant),
            subdissector: match &self.subdissector {
                Some(s) => Some(s.clone()),
                None => None,
            },
            hidden: self.hidden,
            save: self.save,
            size_hint: copy_opt_name(&self.size_hint),
            dispatch: copy_opt_name(&self.dispatch),
            bytes: self.bytes,
            rename: copy_opt_name(&self.rename),
            ws_type: copy_opt_name(&self.ws_type),
            ws_display: copy_opt_name(&self.ws_display),
            ws_enc: copy_opt_name(&self.ws_enc),
        }
    }
}

/// Whether dissecting the field needs a tap context: it has taps, or is consumed or
/// decoded by a function, or selects the variant of an enum.
pub open spec fn needs_ctx(o: FieldOptionsView) -> bool {
    o.taps.len() != 0 || o.consume_with is Some || o.decode_with is Some || o.get_variant is Some
}

/// At most one of `decode_with`, `consume_with` and `subdissector` is given.
pub open spec fn one_add_option(o: FieldOptionsView) -> bool {
    (o.decode_with is Some) as int + (o.consume_with is Some) as int + (o.subdissector is Some) as int
        <= 1
}

impl FieldOptions {
    /// Whether the options name at most one way of adding the field.
    pub fn has_one_add_option(&self) -> (r: bool)
        ensures
            r == one_add_option(self@),
    {
        let n: u8 = (if self.decode_with.is_some() { 1u8 } else { 0u8 }) + (if self.consume_with.is_some() {
            1u8
        } else {
            0u8
        }) + (if self.subdissector.is_some() { 1u8 } else { 0u8 });
        n <= 1
    }

    pub fn requires_ctx(&self) -> (r: bool)
        ensures
            r == needs_ctx(self@),
    {
        !self.taps.is_empty() || self.consume_with.is_some() || self.decode_with.is_some()
            || self.get_variant.is_some()
    }
}

/// How a field is added to the protocol tree.
pub enum AddStrategy {
    Subdissect(Subdissector),
    DecodeWith(String),
    ConsumeWith(String),
    Hidden,
    /// Just add it plainly.
    Default,
}

pub enum AddStrategyView {
    Subdissect(SubdissectorView),
    DecodeWith(Seq<char>),
    ConsumeWith(Seq<char>),
    Hidden,
    Default,
}

impl View for AddStrategy {
    type V = AddStrategyView;

    open spec fn view(&self) -> AddStrategyView {
        match self {
            AddStrategy::Subdissect(s) => AddStrategyView::Subdissect(s@),
            AddStrategy::DecodeWith(f) => AddStrategyView::DecodeWith(f@),
            AddStrategy::ConsumeWith(f) => AddStrategyView::ConsumeWith(f@),
            AddStrategy::Hidden => AddStrategyView::Hidden,
            AddStrategy::Default => AddStrategyView::Default,
        }
    }
}

/// The add strategy that options ask for: subdissection first, then consuming, then
/// decoding, then hiding, and otherwise a plain add.
pub open spec fn strategy_of(o: FieldOptionsView) -> AddStrategyView {
    if let Some(s) = o.subdissector {
        AddStrategyView::Subdissect(s)
    } else if let Some(f) = o.consume_with {
        AddStrategyView::ConsumeWith(f)
    } else if let Some(f) = o.decode_with {
        AddStrategyView::DecodeWith(f)
    } else if o.hidden == Some(true) {
        AddStrategyView::Hidden
    } else {
        AddStrategyView::Default
    }
}

impl AddStrategy {
    pub fn from_field_options(options: &FieldOptions) -> (r: Self)
        requires
            one_add_option(options@),
        ensures
            r@ == strategy_of(options@),
    {
        if let Some(subd) = &options.subdissector {
            AddStrategy::Subdissect(subd.clone())
        } else if let Some(consume_fn) = &options.consume_with {
            AddStrategy::ConsumeWith(consume_fn.clone())
        } else if let Some(decode_fn) = &options.decode_with {
            AddStrategy::DecodeWith(decode_fn.clone())
        } else if let Some(true) = options.hidden {
            AddStrategy::Hidden
        } else {
            AddStrategy::Default
        }
    }
}

/// What is known of a field: its type, its doc comment, its options, and, for a field
/// given to a table subdissector, the type of the table's key.
pub struct FieldMeta {
    pub ty: String,
    pub docs: Option<String>,
    pub options: FieldOptions,
    pub subdissector_key_type: Option<String>,
}

impl Clone for FieldMeta {
    fn clone(&self) -> (r: Self)
        ensures
            r.ty@ == self.ty@,
            r.docs == self.docs,
            r.options@ == self.options@,
            r.subdissector_key_type == self.subdissector_key_type,
    {
        FieldMeta {
            ty: self.ty.clone(),
            docs: copy_opt_name(&self.docs),
            options: self.options.clone(),
            subdissector_key_type: copy_opt_name(&self.subdissector_key_type),
        }
    }
}

/// A named field of a struct.
pub struct NamedField {
    pub ident: String,
    pub meta: FieldMeta,
}

/// The single field of a tuple struct (or `()` for a unit struct).
pub struct UnitTuple(pub FieldMeta);

/// The steps needed to dissect one field.
pub struct FieldDissectionPlan {
    /// The field's value is computed and kept in a variable.
    pub emit: bool,
    /// The field's value is saved in the packet's field store.
    pub save: bool,
    /// A tap context is built around the field.
    pub build_ctx: bool,
    pub add_strategy: AddStrategy,
}

pub struct PlanView {
    pub emit: bool,
    pub save: bool,
    pub build_ctx: bool,
    pub add_strategy: AddStrategyView,
}

impl View for FieldDissectionPlan {
    type V = PlanView;

    open spec fn view(&self) -> PlanView {
        PlanView {
            emit: self.emit,
            save: self.save,
            build_ctx: self.build_ctx,
            add_strategy: self.add_strategy@,
        }
    }
}

/// The plan for the field of a unit tuple: its value is emitted exactly when a tap
/// context is needed.
pub open spec fn unit_plan(o: FieldOptionsView) -> PlanView {
    PlanView {
        emit: needs_ctx(o),
        save: o.save == Some(true),
        build_ctx: needs_ctx(o),
        add_strategy: strategy_of(o),
    }
}

impl FieldDissectionPlan {
    pub fn from_unit_tuple(unit: &UnitTuple) -> (r: Self)
        requires
            one_add_option(unit.0.options@),
        ensures
            r@ == unit_plan(unit.0.options@),
    {
        let options = &unit.0.options;
        let save = options.save == Some(true);
        let build_ctx = options.requires_ctx();
        let emit = build_ctx;
        let add_strategy = AddStrategy::from_field_options(options);
        FieldDissectionPlan { emit, save, build_ctx, add_strategy }
    }
}

/// The names of the fields whose values field `f` needs emitted: itself when it needs a
/// tap context, the keys of its subdissector table, the field it dispatches on, and the
/// field holding its length.
pub open spec fn wanted_by(ident: Seq<char>, o: FieldOptionsView) -> Set<Seq<char>> {
    let own = if needs_ctx(o) { set![ident] } else { Set::empty() };
    let keys = match o.subdissector {
        Some(SubdissectorView::Table { fields, .. }) => fields.to_set(),
        _ => Set::empty(),
    };
    let dispatch = match o.dispatch {
        Some(d) => set![d],
        None => Set::empty(),
    };
    let size_hint = match o.size_hint {
        Some(h) => set![h],
        None => Set::empty(),
    };
    own + keys + dispatch + size_hint
}

/// The names of all fields whose values must be emitted, given the fields of a struct.
pub open spec fn emitted_names(fields: Seq<NamedField>) -> Set<Seq<char>>
    decreases fields.len(),
{
    if fields.len() == 0 {
        Set::empty()
    } else {
        emitted_names(fields.drop_last()) + wanted_by(
            fields.last().ident@,
            fields.last().meta.options@,
        )
    }
}

/// The plan for named field `f` of a struct whose emitted names are `emitted`.
pub open spec fn named_plan(f: NamedField, emitted: Set<Seq<char>>) -> PlanView {
    PlanView {
        emit: emitted.contains(f.ident@),
        save: f.meta.options@.save == Some(true),
        build_ctx: needs_ctx(f.meta.options@),
        add_strategy: strategy_of(f.meta.options@),
    }
}

/// Adds the names of `v` to `names`.
fn add_names(names: &mut Vec<String>, v: &Vec<String>)
    ensures
        names_of(final(names)@) == names_of(old(names)@) + names_of(v@),
{
    let ghost old_names = names@;
    let mut i: usize = 0;
    while i < v.len()
        invariant
            i <= v@.len(),
            names@ == old_names + v@.take(i as int),
        decreases v@.len() - i,
    {
        names.push(v[i].clone());
        i = i + 1;
        assert(names@ =~= old_names + v@.take(i as int));
    }
    assert(v@.take(v@.len() as int) =~= v@);
    assert forall|x: Seq<char>| #[trigger] names_of(names@).contains(x) <==> names_of(old_names).contains(x)
        || names_of(v@).contains(x) by {
        let n = old_names.len();
        if names_of(names@).contains(x) {
            let k = choose|k: int| 0 <= k < names@.len() && (#[trigger] names@[k])@ == x;
            if k < n {
                assert(old_names[k]@ == x);
            } else {
                assert(v@[k - n]@ == x);
            }
        }
        if names_of(old_names).contains(x) {
            let k = choose|k: int| 0 <= k < old_names.len() && (#[trigger] old_names[k])@ == x;
            assert(names@[k]@ == x);
        }
        if names_of(v@).contains(x) {
            let k = choose|k: int| 0 <= k < v@.len() && (#[trigger] v@[k])@ == x;
            assert(names@[k + n]@ == x);
        }
    }
    assert(names_of(names@) =~= names_of(old_names) + names_of(v@));
}

/// Whether `names` holds `name`.
fn has_name(names: &Vec<String>, name: &String) -> (r: bool)
    ensures
        r == names_of(names@).contains(name@),
{
    let mut i: usize = 0;
    while i < names.len()
        invariant
            i <= names@.len(),
            forall|j: int| 0 <= j < i ==> (#[trigger] names@[j])@ != name@,
        decreases names@.len() - i,
    {
        if names[i] == *name {
            return true;
        }
        i = i + 1;
    }
    false
}

/// A list of at most one name.
fn single_name(name: &Option<String>) -> (r: Vec<String>)
    ensures
        names_of(r@) == match opt_view(*name) {
            Some(n) => set![n],
            None => Set::<Seq<char>>::empty(),
        },
{
    let mut r: Vec<String> = Vec::new();
    if let Some(n) = name {
        r.push(n.clone());
        assert(r@[0]@ == n@);
        assert(names_of(r@) =~= set![n@]);
    } else {
        assert(names_of(r@) =~= Set::<Seq<char>>::empty());
    }
    r
}

/// The names that the options of field `ident` want emitted.
fn names_wanted(ident: &String, options: &FieldOptions) -> (r: Vec<String>)
    ensures
        names_of(r@) == wanted_by(ident@, options@),
{
    let own_name = if options.requires_ctx() {
        Some(ident.clone())
    } else {
        None
    };
    let mut r = single_name(&own_name);
    let keys: Vec<String> = match &options.subdissector {
        Some(Subdissector::Table { fields: keys, .. }) => copy_names(keys),
        _ => Vec::new(),
    };
    proof {
        assert(names_of(keys@) =~= match options@.subdissector {
            Some(SubdissectorView::Table { fields, .. }) => fields.to_set(),
            _ => Set::empty(),
        }) by {
            match &options.subdissector {
                Some(Subdissector::Table { fields, .. }) => {
                    assert forall|x: Seq<char>| names_of(keys@).contains(x) <==> seq_view(fields@).contains(x) by {
                        if names_of(keys@).contains(x) {
                            let k = choose|k: int| 0 <= k < keys@.len() && (#[trigger] keys@[k])@ == x;
                            assert(seq_view(fields@)[k] == x);
                        }
                        if seq_view(fields@).contains(x) {
                            let k = choose|k: int| 0 <= k < seq_view(fields@).len() && seq_view(fields@)[k] == x;
                            assert(keys@[k]@ == x);
                        }
                    }
                },
                _ => {},
            }
        }
    }
    let dispatch = single_name(&options.dispatch);
    let size_hint = single_name(&options.size_hint);
    add_names(&mut r, &keys);
    add_names(&mut r, &dispatch);
    add_names(&mut r, &size_hint);
    r
}

/// The plans for the named fields of a struct, one per field, in order. A field's value
/// is emitted when some field of the struct wants it.
pub fn get_field_dissection_plans(fields: &Vec<NamedField>) -> (r: Vec<FieldDissectionPlan>)
    requires
        forall|i: int| 0 <= i < fields@.len() ==> one_add_option(#[trigger] fields@[i].meta.options@),
    ensures
        r@.len() == fields@.len(),
        forall|i: int| 0 <= i < fields@.len() ==> (#[trigger] r@[i])@ == named_plan(
            fields@[i],
            emitted_names(fields@),
        ),
{
    let mut wanted: Vec<String> = Vec::new();
    let mut i: usize = 0;
    assert(names_of(wanted@) =~= Set::<Seq<char>>::empty());
    while i < fields.len()
        invariant
            i <= fields@.len(),
            names_of(wanted@) == emitted_names(fields@.take(i as int)),
        decreases fields@.len() - i,
    {
        let more = names_wanted(&fields[i].ident, &fields[i].meta.options);
        add_names(&mut wanted, &more);
        proof {
            assert(fields@.take(i + 1).drop_last() =~= fields@.take(i as int));
            assert(fields@.take(i + 1).last() == fields@[i as int]);
        }
        i = i + 1;
    }
    assert(fields@.take(fields@.len() as int) =~= fields@);
    let mut plans: Vec<FieldDissectionPlan> = Vec::new();
    let mut j: usize = 0;
    while j < fields.len()
        invariant
            j <= fields@.len(),
            forall|i: int| 0 <= i < fields@.len() ==> one_add_option(#[trigger] fields@[i].meta.options@),
            names_of(wanted@) == emitted_names(fields@),
            plans@.len() == j,
            forall|i: int| 0 <= i < j ==> (#[trigger] plans@[i])@ == named_plan(
                fields@[i],
                emitted_names(fields@),
            ),
        decreases fields@.len() - j,
    {
        let options = &fields[j].meta.options;
        let emit = has_name(&wanted, &fields[j].ident);
        let save = options.save == Some(true);
        let build_ctx = options.requires_ctx();
        let add_strategy = AddStrategy::from_field_options(options);
        plans.push(FieldDissectionPlan { emit, save, build_ctx, add_strategy });
        j = j + 1;
    }
    plans
}


/// The plans used to measure a struct's fields without adding them to the tree: the
/// dissection plans with every field hidden.
pub fn get_field_size_plans(fields: &Vec<NamedField>) -> (r: Vec<FieldDissectionPlan>)
    requires
        forall|i: int| 0 <= i < fields@.len() ==> one_add_option(#[trigger] fields@[i].meta.options@),
    ensures
        r@.len() == fields@.len(),
        forall|i: int| 0 <= i < fields@.len() ==> (#[trigger] r@[i])@ == (PlanView {
            add_strategy: AddStrategyView::Hidden,
            ..named_plan(fields@[i], emitted_names(fields@))
        }),
{
    let plans = get_field_dissection_plans(fields);
    let mut r: Vec<FieldDissectionPlan> = Vec::new();
    let mut i: usize = 0;
    while i < plans.len()
        invariant
            i <= plans@.len(),
            plans@.len() == fields@.len(),
            r@.len() == i,
            forall|k: int| 0 <= k < fields@.len() ==> (#[trigger] plans@[k])@ == named_plan(
                fields@[k],
                emitted_names(fields@),
            ),
            forall|k: int| 0 <= k < i ==> (#[trigger] r@[k])@ == (PlanView {
                add_strategy: AddStrategyView::Hidden,
                ..named_plan(fields@[k], emitted_names(fields@))
            }),
        decreases plans@.len() - i,
    {
        let p = &plans[i];
        r.push(FieldDissectionPlan {
            emit: p.emit,
            save: p.save,
            build_ctx: p.build_ctx,
            add_strategy: AddStrategy::Hidden,
        });
        i = i + 1;
    }
    r
}

/// The plan used to measure the field of a unit tuple: its dissection plan, hidden.
pub fn unit_size_plan(unit: &UnitTuple) -> (r: FieldDissectionPlan)
    requires
        one_add_option(unit.0.options@),
    ensures
        r@ == (PlanView { add_strategy: AddStrategyView::Hidden, ..unit_plan(unit.0.options@) }),
{
    let mut plan = FieldDissectionPlan::from_unit_tuple(unit);
    plan.add_strategy = AddStrategy::Hidden;
    plan
}

/// How a hidden field is stepped over.
pub enum HiddenStep {
    /// Run the consuming function and skip what it consumed.
    Consume(String),
    /// Hand the bytes to the subdissector, without a tree to add to.
    Subdissect(Subdissector),
    /// Skip the field's size.
    Skip,
}

pub enum HiddenStepView {
    Consume(Seq<char>),
    Subdissect(SubdissectorView),
    Skip,
}

impl View for HiddenStep {
    type V = HiddenStepView;

    open spec fn view(&self) -> HiddenStepView {
        match self {
            HiddenStep::Consume(f) => HiddenStepView::Consume(f@),
            HiddenStep::Subdissect(s) => HiddenStepView::Subdissect(s@),
            HiddenStep::Skip => HiddenStepView::Skip,
        }
    }
}

/// A consuming function comes first, then a subdissector; otherwise the field's size is
/// skipped.
pub open spec fn hidden_step_of(o: FieldOptionsView) -> HiddenStepView {
    if let Some(f) = o.consume_with {
        HiddenStepView::Consume(f)
    } else if let Some(s) = o.subdissector {
        HiddenStepView::Subdissect(s)
    } else {
        HiddenStepView::Skip
    }
}

pub fn hidden_step(options: &FieldOptions) -> (r: HiddenStep)
    ensures
        r@ == hidden_step_of(options@),
{
    if let Some(consume_fn) = &options.consume_with {
        HiddenStep::Consume(consume_fn.clone())
    } else if let Some(subd) = &options.subdissector {
        HiddenStep::Subdissect(subd.clone())
    } else {
        HiddenStep::Skip
    }
}

/// The type of the key of a subdissector table keyed by `keys`: the type of the last
/// field, in order, that is one of the keys.
pub open spec fn key_type_of(fields: Seq<NamedField>, keys: Seq<Seq<char>>) -> Option<Seq<char>>
    decreases fields.len(),
{
    if fields.len() == 0 {
        None
    } else if keys.contains(fields.last().ident@) {
        Some(fields.last().meta.ty@)
    } else {
        key_type_of(fields.drop_last(), keys)
    }
}

/// The key type that `assign_subdissector_key_types` gives field `f` of `fields`.
pub open spec fn assigned_key_type(f: NamedField, fields: Seq<NamedField>) -> Option<Seq<char>> {
    match f.meta.options@.subdissector {
        Some(SubdissectorView::Table { fields: keys, .. }) => match key_type_of(fields, keys) {
            Some(t) => Some(t),
            None => opt_view(f.meta.subdissector_key_type),
        },
        _ => None,
    }
}

/// Whether `name` is one of `keys`.
fn is_key(keys: &Vec<String>, name: &String) -> (r: bool)
    ensures
        r == seq_view(keys@).contains(name@),
{
    let mut i: usize = 0;
    while i < keys.len()
        invariant
            i <= keys@.len(),
            forall|j: int| 0 <= j < i ==> (#[trigger] keys@[j])@ != name@,
        decreases keys@.len() - i,
    {
        if keys[i] == *name {
            assert(seq_view(keys@)[i as int] == name@);
            return true;
        }
        i = i + 1;
    }
    assert(!seq_view(keys@).contains(name@)) by {
        if seq_view(keys@).contains(name@) {
            let k = choose|k: int| 0 <= k < seq_view(keys@).len() && seq_view(keys@)[k] == name@;
            assert(keys@[k]@ == name@);
        }
    }
    false
}

/// The fields of a struct, each given the key type of its subdissector table: fields
/// that are not subdissected through a table get none, and a table none of whose keys
/// names a field leaves the key type as it was.
pub fn assign_subdissector_key_types(fields: &Vec<NamedField>) -> (r: Vec<NamedField>)
    ensures
        r@.len() == fields@.len(),
        forall|i: int| 0 <= i < fields@.len() ==> {
            &&& (#[trigger] r@[i]).ident@ == fields@[i].ident@
            &&& r@[i].meta.ty@ == fields@[i].meta.ty@
            &&& r@[i].meta.docs == fields@[i].meta.docs
            &&& r@[i].meta.options@ == fields@[i].meta.options@
            &&& opt_view(r@[i].meta.subdissector_key_type) == assigned_key_type(fields@[i], fields@)
        },
{
    let mut r: Vec<NamedField> = Vec::new();
    let mut i: usize = 0;
    while i < fields.len()
        invariant
            i <= fields@.len(),
            r@.len() == i,
            forall|k: int| 0 <= k < i ==> {
                &&& (#[trigger] r@[k]).ident@ == fields@[k].ident@
                &&& r@[k].meta.ty@ == fields@[k].meta.ty@
                &&& r@[k].meta.docs == fields@[k].meta.docs
                &&& r@[k].meta.options@ == fields@[k].meta.options@
                &&& opt_view(r@[k].meta.subdissector_key_type) == assigned_key_type(fields@[k], fields@)
            },
        decreases fields@.len() - i,
    {
        let field = &fields[i];
        let mut meta = field.meta.clone();
        match &field.meta.options.subdissector {
            Some(Subdissector::Table { fields: keys, .. }) => {
                let mut j: usize = 0;
                let ghost keys_view = seq_view(keys@);
                while j < fields.len()
                    invariant
                        j <= fields@.len(),
                        keys_view == seq_view(keys@),
                        opt_view(meta.subdissector_key_type) == match key_type_of(
                            fields@.take(j as int),
                            keys_view,
                        ) {
                            Some(t) => Some(t),
                            None => opt_view(field.meta.subdissector_key_type),
                        },
                        meta.ty@ == field.meta.ty@,
                        meta.docs == field.meta.docs,
                        meta.options@ == field.meta.options@,
                    decreases fields@.len() - j,
                {
                    if is_key(keys, &fields[j].ident) {
                        meta.subdissector_key_type = Some(fields[j].meta.ty.clone());
                    }
                    proof {
                        assert(fields@.take(j + 1).drop_last() =~= fields@.take(j as int));
                        assert(fields@.take(j + 1).last() == fields@[j as int]);
                    }
                    j = j + 1;
                }
                assert(fields@.take(fields@.len() as int) =~= fields@);
            },
            _ => {
                meta.subdissector_key_type = None;
            },
        }
        r.push(NamedField { ident: field.ident.clone(), meta });
        i = i + 1;
    }
    r
}


/// What any field of a struct wants emitted is among the struct's emitted names.
pub proof fn lemma_wanted_is_emitted(fields: Seq<NamedField>, j: int)
    requires
        0 <= j < fields.len(),
    ensures
        wanted_by(fields[j].ident@, fields[j].meta.options@).subset_of(emitted_names(fields)),
    decreases fields.len(),
{
    if j < fields.len() - 1 {
        lemma_wanted_is_emitted(fields.drop_last(), j);
        assert(fields.drop_last()[j] == fields[j]);
    }
}

/// A field's value is kept whenever another field of the struct needs it: as the length
/// of a list, as the field an enum's variant is dispatched on, or as a key of a
/// subdissector table.
pub proof fn law_needed_fields_are_emitted(fields: Seq<NamedField>, i: int, j: int)
    requires
        0 <= i < fields.len(),
        0 <= j < fields.len(),
        ({
            let o = fields[j].meta.options@;
            ||| o.size_hint == Some(fields[i].ident@)
            ||| o.dispatch == Some(fields[i].ident@)
            ||| (o.subdissector matches Some(SubdissectorView::Table { fields: keys, .. })
                && keys.contains(fields[i].ident@))
        }),
    ensures
        named_plan(fields[i], emitted_names(fields)).emit,
{
    lemma_wanted_is_emitted(fields, j);
    assert(wanted_by(fields[j].ident@, fields[j].meta.options@).contains(fields[i].ident@));
}

/// A field that needs a tap context always has its value emitted.
pub proof fn law_tapped_fields_are_emitted(fields: Seq<NamedField>, i: int)
    requires
        0 <= i < fields.len(),
        needs_ctx(fields[i].meta.options@),
    ensures
        named_plan(fields[i], emitted_names(fields)).emit,
{
    lemma_wanted_is_emitted(fields, i);
    assert(wanted_by(fields[i].ident@, fields[i].meta.options@).contains(fields[i].ident@));
}

/// A named field gets a tap context exactly when it has taps, a `consume_with`, a
/// `decode_with` or a `get_variant` function; a field with a context has its value
/// emitted, to stand in the context; and a field consumed or decoded by a function, which
/// reads the context, always gets one.
pub proof fn law_context_built_when_needed(fields: Seq<NamedField>, i: int)
    requires
        0 <= i < fields.len(),
    ensures
        ({
            let o = fields[i].meta.options@;
            let p = named_plan(fields[i], emitted_names(fields));
            &&& p.build_ctx <==> (o.taps.len() != 0 || o.consume_with is Some || o.decode_with is Some
                || o.get_variant is Some)
            &&& p.build_ctx ==> p.emit
            &&& (p.add_strategy is ConsumeWith || p.add_strategy is DecodeWith) ==> p.build_ctx && p.emit
        }),
{
    if needs_ctx(fields[i].meta.options@) {
        law_tapped_fields_are_emitted(fields, i);
    }
}

/// The field of a unit tuple gets a tap context exactly when it has taps, a
/// `consume_with`, a `decode_with` or a `get_variant` function, and its value is emitted
/// exactly then; consumed or decoded fields always get one.
pub proof fn law_unit_context_built_when_needed(o: FieldOptionsView)
    ensures
        unit_plan(o).build_ctx <==> (o.taps.len() != 0 || o.consume_with is Some || o.decode_with is Some
            || o.get_variant is Some),
        unit_plan(o).emit == unit_plan(o).build_ctx,
        (unit_plan(o).add_strategy is ConsumeWith || unit_plan(o).add_strategy is DecodeWith)
            ==> unit_plan(o).build_ctx,
{
}

} // verus!

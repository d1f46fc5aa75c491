//! A TOML document as it is written: every value as its kind, tables within tables and
//! lists within lists, and numbers of any size.

use crate::text::{join3, same_text};
use serde::de::{IgnoredAny, IntoDeserializer};
use serde::Deserialize;
use toml::de::{DeTable, DeValue};
use toml::{Spanned, Table, Value};
use vstd::prelude::*;

verus! {

/// What a value is, with everything in it.
#[verifier::ext_equal]
pub enum NodeView {
    Text(Seq<char>),
    /// A whole number, where it is known, and whether any number of the machine is as large.
    Number(Option<i128>, bool),
    /// A fraction: whether any number of the machine is as large.
    Fraction(bool),
    Flag(bool),
    /// A date or a time, as it is written.
    Date(Seq<char>),
    List(Seq<NodeView>),
    Table(Seq<(Seq<char>, NodeView)>),
}

/// A value as `toml` parses it.
#[verifier::external_type_specification]
#[verifier::external_body]
pub struct ExDeValue<'i>(DeValue<'i>);

/// What a value of `toml` holds.
pub uninterp spec fn held(v: DeValue<'_>) -> NodeView;

/// What `toml::de::DeTable::parse` makes of a text: what stands in the document that it is,
/// by name, or, in words for people, why it is none.
pub uninterp spec fn outlined(s: Seq<char>) -> Result<Seq<(Seq<char>, NodeView)>, Seq<char>>;

/// What named values hold.
pub open spec fn entries(t: Seq<(String, DeValue<'_>)>) -> Seq<(Seq<char>, NodeView)> {
    Seq::new(t.len(), |i: int| (t[i].0@, held(t[i].1)))
}

/// What values hold.
pub open spec fn items(l: Seq<DeValue<'_>>) -> Seq<NodeView> {
    Seq::new(l.len(), |i: int| held(l[i]))
}

/// A value taken apart, one level of it.
pub enum Opened<'i> {
    Text(String),
    Number(Option<i128>, bool),
    Fraction(bool),
    Flag(bool),
    Date(String),
    List(Vec<DeValue<'i>>),
    Table(Vec<(String, DeValue<'i>)>),
}

impl<'i> Opened<'i> {
    /// What it is.
    pub open spec fn node(self) -> NodeView {
        match self {
            Opened::Text(s) => NodeView::Text(s@),
            Opened::Number(n, fits) => NodeView::Number(n, fits),
            Opened::Fraction(fits) => NodeView::Fraction(fits),
            Opened::Flag(b) => NodeView::Flag(b),
            Opened::Date(s) => NodeView::Date(s@),
            Opened::List(l) => NodeView::List(items(l@)),
            Opened::Table(t) => NodeView::Table(entries(t@)),
        }
    }
}

/// `toml::de::DeTable::parse`, handed out as named values, and its error as the text that
/// it displays. It fails on texts that are not TOML documents, and on documents that nest
/// deeper than it follows; what it returns, the error's text too, is a function of the
/// text alone.
#[verifier::external_body]
fn parse<'i>(s: &'i str) -> (r: Result<Vec<(String, DeValue<'i>)>, String>)
    ensures
        match r {
            Ok(v) => outlined(s@) == Ok::<Seq<(Seq<char>, NodeView)>, Seq<char>>(entries(v@)),
            Err(why) => outlined(s@) == Err::<Seq<(Seq<char>, NodeView)>, Seq<char>>(why@),
        },
{
    let table = DeTable::parse(s).map_err(|e| e.to_string())?.into_inner();
    Ok(table.into_iter().map(|(k, v)| (k.into_inner().into_owned(), v.into_inner())).collect())
}

/// Whether a number of the machine is as large as this one, where the value is a number.
pub open spec fn is_measure(fits: bool, n: NodeView) -> bool {
    match n {
        NodeView::Number(_, as_large) => fits == as_large,
        NodeView::Fraction(as_large) => fits == as_large,
        _ => true,
    }
}

/// What `serde`'s `IgnoredAny` makes of a value, which takes every number but one that no
/// number of the machine is as large as.
#[verifier::external_body]
fn measure(v: &DeValue<'_>) -> (r: bool)
    ensures
        is_measure(r, held(*v)),
{
    IgnoredAny::deserialize(Spanned::new(0..0, v.clone()).into_deserializer()).is_ok()
}

/// The variants of `toml::de::DeValue` told apart, each with its contents: texts and names
/// as they are, and a whole number as its digits are read in the base they are written in.
/// Whether a number of the machine is as large as a number is taken over.
#[verifier::external_body]
fn take_apart<'i>(v: &DeValue<'i>, fits: bool) -> (r: Opened<'i>)
    ensures
        is_measure(fits, held(*v)) ==> r.node() == held(*v),
{
    match v.clone() {
        DeValue::String(s) => Opened::Text(s.into_owned()),
        DeValue::Integer(n) => Opened::Number(
            i128::from_str_radix(n.as_str(), n.radix()).ok(),
            fits,
        ),
        DeValue::Float(_) => Opened::Fraction(fits),
        DeValue::Boolean(b) => Opened::Flag(b),
        DeValue::Datetime(d) => Opened::Date(d.to_string()),
        DeValue::Array(a) => Opened::List(a.into_iter().map(Spanned::into_inner).collect()),
        DeValue::Table(t) => Opened::Table(
            t.into_iter().map(|(k, v)| (k.into_inner().into(), v.into_inner())).collect(),
        ),
    }
}

/// A value taken apart.
pub fn open<'i>(v: &DeValue<'i>) -> (r: Opened<'i>)
    ensures
        r.node() == held(*v),
{
    let fits = measure(v);
    take_apart(v, fits)
}

/// What stands in a document of at most one number.
pub open spec fn at_most_one(name: Seq<char>, n: Option<i64>) -> Seq<(Seq<char>, NodeView)> {
    match n {
        Some(n) => seq![(name, NodeView::Number(Some(n as i128), true))],
        None => Seq::empty(),
    }
}

/// A text is a document with exactly this in it.
pub open spec fn says(s: Seq<char>, d: Seq<(Seq<char>, NodeView)>) -> bool {
    outlined(s) == Ok::<Seq<(Seq<char>, NodeView)>, Seq<char>>(d)
}

/// `toml::to_string` of a table with at most one number in it. Which characters it
/// writes is left open: what is claimed is that they are a TOML document with exactly
/// that in it. It fails only on values that TOML has no form for, and it has one for
/// every number.
#[verifier::external_body]
pub(crate) fn write_number(name: &str, n: Option<i64>) -> (r: String)
    ensures
        says(r@, at_most_one(name@, n)),
{
    let table: Table = n.into_iter().map(|n| (name.to_owned(), Value::Integer(n))).collect();
    toml::to_string(&table).expect("a number has a form in TOML")
}

/// What stands in the TOML document that a text is, or why it is none.
pub fn read_outline<'i>(s: &'i str) -> (r: Result<Vec<(String, DeValue<'i>)>, String>)
    ensures
        match r {
            Ok(v) => outlined(s@) == Ok::<Seq<(Seq<char>, NodeView)>, Seq<char>>(entries(v@)),
            Err(why) => outlined(s@) == Err::<Seq<(Seq<char>, NodeView)>, Seq<char>>(why@),
        },
{
    parse(s)
}

/// The value of a name, from `i` on.
pub open spec fn value_from(t: Seq<(Seq<char>, NodeView)>, name: Seq<char>, i: int) -> Option<
    NodeView,
>
    decreases t.len() - i,
{
    if i < 0 || i >= t.len() {
        None
    } else if t[i].0 == name {
        Some(t[i].1)
    } else {
        value_from(t, name, i + 1)
    }
}

/// The value of a name.
pub open spec fn value_of(t: Seq<(Seq<char>, NodeView)>, name: Seq<char>) -> Option<NodeView> {
    value_from(t, name, 0)
}

/// What a value that may be there is, taken apart.
pub open spec fn node_of(o: Option<Opened<'_>>) -> Option<NodeView> {
    match o {
        Some(o) => Some(o.node()),
        None => None,
    }
}

/// The value of a name, taken apart.
pub fn find<'i>(t: &Vec<(String, DeValue<'i>)>, name: &str) -> (r: Option<Opened<'i>>)
    ensures
        node_of(r) == value_of(entries(t@), name@),
{
    let ghost all = entries(t@);
    let mut i: usize = 0;
    while i < t.len()
        invariant
            i <= t@.len() == all.len(),
            all == entries(t@),
            value_of(all, name@) == value_from(all, name@, i as int),
        decreases t@.len() - i,
    {
        assert(all[i as int] == (t@[i as int].0@, held(t@[i as int].1)));
        if same_text(t[i].0.as_str(), name) {
            return Some(open(&t[i].1));
        }
        i += 1;
    }
    None
}

/// Every number in a value, however deep, fits in 64 bits.
pub open spec fn all_fit(n: NodeView) -> bool
    decreases n,
{
    match n {
        NodeView::Number(x, fits) => match x {
            Some(x) => i64::MIN <= x <= i64::MAX,
            None => false,
        },
        NodeView::Fraction(fits) => fits,
        NodeView::List(l) => forall|i: int| 0 <= i < l.len() ==> all_fit(#[trigger] l[i]),
        NodeView::Table(t) => forall|i: int| 0 <= i < t.len() ==> all_fit((#[trigger] t[i]).1),
        _ => true,
    }
}

/// Whether every number in a value, however deep, fits in 64 bits.
pub fn numbers_fit(v: &DeValue<'_>) -> (r: bool)
    ensures
        r == all_fit(held(*v)),
    decreases held(*v),
{
    match open(v) {
        Opened::Number(x, fits) => match x {
            Some(x) => i64::MIN as i128 <= x && x <= i64::MAX as i128,
            None => false,
        },
        Opened::Fraction(fits) => fits,
        Opened::List(l) => {
            let ghost all = items(l@);
            let mut i: usize = 0;
            while i < l.len()
                invariant
                    i <= l@.len() == all.len(),
                    all == items(l@),
                    held(*v) == NodeView::List(all),
                    forall|k: int| 0 <= k < i ==> all_fit(#[trigger] all[k]),
                decreases l@.len() - i,
            {
                assert(all[i as int] == held(l@[i as int]));
                let ghost n = held(*v);
                assert(decreases_to!(n => n->List_0));
                assert(decreases_to!(n->List_0 => n->List_0[i as int]));
                if !numbers_fit(&l[i]) {
                    assert(!all_fit(n->List_0[i as int]));
                    assert(!all_fit(n));
                    return false;
                }
                i += 1;
            }
            true
        },
        Opened::Table(t) => {
            let ghost all = entries(t@);
            let mut i: usize = 0;
            while i < t.len()
                invariant
                    i <= t@.len() == all.len(),
                    all == entries(t@),
                    held(*v) == NodeView::Table(all),
                    forall|k: int| 0 <= k < i ==> all_fit((#[trigger] all[k]).1),
                decreases t@.len() - i,
            {
                assert(all[i as int].1 == held(t@[i as int].1));
                let ghost n = held(*v);
                assert(decreases_to!(n => n->Table_0));
                assert(decreases_to!(n->Table_0 => n->Table_0[i as int]));
                if !numbers_fit(&t[i].1) {
                    assert(!all_fit(n->Table_0[i as int].1));
                    assert(!all_fit(n));
                    return false;
                }
                i += 1;
            }
            true
        },
        _ => true,
    }
}

/// A value can be passed over: every number in it, however deep, is as large as some number
/// of the machine.
pub open spec fn passes(n: NodeView) -> bool
    decreases n,
{
    match n {
        NodeView::Number(x, fits) => fits,
        NodeView::Fraction(fits) => fits,
        NodeView::List(l) => forall|i: int| 0 <= i < l.len() ==> passes(#[trigger] l[i]),
        NodeView::Table(t) => forall|i: int| 0 <= i < t.len() ==> passes((#[trigger] t[i]).1),
        _ => true,
    }
}

/// Whether a value can be passed over.
pub fn can_be_passed(v: &DeValue<'_>) -> (r: bool)
    ensures
        r == passes(held(*v)),
    decreases held(*v),
{
    match open(v) {
        Opened::Number(x, fits) => fits,
        Opened::Fraction(fits) => fits,
        Opened::List(l) => {
            let ghost all = items(l@);
            let mut i: usize = 0;
            while i < l.len()
                invariant
                    i <= l@.len() == all.len(),
                    all == items(l@),
                    held(*v) == NodeView::List(all),
                    forall|k: int| 0 <= k < i ==> passes(#[trigger] all[k]),
                decreases l@.len() - i,
            {
                assert(all[i as int] == held(l@[i as int]));
                let ghost n = held(*v);
                assert(decreases_to!(n => n->List_0));
                assert(decreases_to!(n->List_0 => n->List_0[i as int]));
                if !can_be_passed(&l[i]) {
                    assert(!passes(n->List_0[i as int]));
                    assert(!passes(n));
                    return false;
                }
                i += 1;
            }
            true
        },
        Opened::Table(t) => {
            let ghost all = entries(t@);
            let mut i: usize = 0;
            while i < t.len()
                invariant
                    i <= t@.len() == all.len(),
                    all == entries(t@),
                    held(*v) == NodeView::Table(all),
                    forall|k: int| 0 <= k < i ==> passes((#[trigger] all[k]).1),
                decreases t@.len() - i,
            {
                assert(all[i as int].1 == held(t@[i as int].1));
                let ghost n = held(*v);
                assert(decreases_to!(n => n->Table_0));
                assert(decreases_to!(n->Table_0 => n->Table_0[i as int]));
                if !can_be_passed(&t[i].1) {
                    assert(!passes(n->Table_0[i as int].1));
                    assert(!passes(n));
                    return false;
                }
                i += 1;
            }
            true
        },
        _ => true,
    }
}

/// The first of some named values that cannot be passed over, from `i` on, leaving out those
/// of these names.
pub open spec fn blocked_from(
    t: Seq<(Seq<char>, NodeView)>,
    known: Seq<Seq<char>>,
    i: int,
) -> Option<Seq<char>>
    decreases t.len() - i,
{
    if i < 0 || i >= t.len() {
        None
    } else if !known.contains(t[i].0) && !passes(t[i].1) {
        Some(t[i].0)
    } else {
        blocked_from(t, known, i + 1)
    }
}

/// The first of some named values that cannot be passed over, leaving out those of these
/// names.
pub open spec fn blocked(t: Seq<(Seq<char>, NodeView)>, known: Seq<Seq<char>>) -> Option<
    Seq<char>,
> {
    blocked_from(t, known, 0)
}

fn is_known(known: &Vec<&'static str>, name: &str) -> (r: bool)
    ensures
        r == known.deep_view().contains(name@),
{
    let mut i: usize = 0;
    while i < known.len()
        invariant
            i <= known@.len(),
            forall|k: int| 0 <= k < i ==> (#[trigger] known.deep_view()[k]) != name@,
        decreases known@.len() - i,
    {
        if same_text(known[i], name) {
            assert(known.deep_view()[i as int] == name@);
            return true;
        }
        assert(known.deep_view()[i as int] == known@[i as int]@);
        i += 1;
    }
    assert(known.deep_view().len() == known@.len());
    false
}

/// The first of some named values that cannot be passed over.
pub fn find_blocked(t: &Vec<(String, DeValue<'_>)>, known: &Vec<&'static str>) -> (r: Option<
    String,
>)
    ensures
        r.deep_view() == blocked(entries(t@), known.deep_view()),
{
    let ghost all = entries(t@);
    let mut i: usize = 0;
    while i < t.len()
        invariant
            i <= t@.len() == all.len(),
            all == entries(t@),
            blocked(all, known.deep_view()) == blocked_from(all, known.deep_view(), i as int),
        decreases t@.len() - i,
    {
        assert(all[i as int] == (t@[i as int].0@, held(t@[i as int].1)));
        if !is_known(known, t[i].0.as_str()) && !can_be_passed(&t[i].1) {
            return Some(t[i].0.clone());
        }
        i += 1;
    }
    None
}

/// A group of settings: by their names, or one after the other in the order that they are
/// documented in, as far as the list goes.
pub enum Group<'i> {
    Nothing,
    Named(Vec<(String, DeValue<'i>)>),
    Listed(Vec<DeValue<'i>>),
}

/// The model of a `Group`.
#[verifier::ext_equal]
pub enum GroupView {
    Nothing,
    Named(Seq<(Seq<char>, NodeView)>),
    Listed(Seq<NodeView>),
}

impl<'i> Group<'i> {
    /// What it is.
    pub open spec fn group(self) -> GroupView {
        match self {
            Group::Nothing => GroupView::Nothing,
            Group::Named(t) => GroupView::Named(entries(t@)),
            Group::Listed(l) => GroupView::Listed(items(l@)),
        }
    }
}

/// The group that a value is. A date sets nothing of what is asked for; `None` for a value
/// that is no group.
pub open spec fn group_of(n: Option<NodeView>) -> Option<GroupView> {
    match n {
        None | Some(NodeView::Date(_)) => Some(GroupView::Nothing),
        Some(NodeView::Table(t)) => Some(GroupView::Named(t)),
        Some(NodeView::List(l)) => Some(GroupView::Listed(l)),
        Some(_) => None,
    }
}

impl GroupView {
    /// The first name in it that is none of these and whose value cannot be passed over. A
    /// list is not read farther than the settings go.
    pub open spec fn blocked(self, known: Seq<Seq<char>>) -> Option<Seq<char>> {
        match self {
            GroupView::Named(t) => blocked(t, known),
            _ => None,
        }
    }

    /// What is set in it: by a name, or at a place.
    pub open spec fn setting(self, place: int, name: Seq<char>) -> Option<NodeView> {
        match self {
            GroupView::Nothing => None,
            GroupView::Named(t) => value_of(t, name),
            GroupView::Listed(l) => if 0 <= place < l.len() {
                Some(l[place])
            } else {
                None
            },
        }
    }
}

/// The group of a name.
pub fn find_group<'i>(d: &Vec<(String, DeValue<'i>)>, name: &str) -> (r: Option<Group<'i>>)
    ensures
        match r {
            Some(g) => group_of(value_of(entries(d@), name@)) == Some(g.group()),
            None => group_of(value_of(entries(d@), name@)) is None,
        },
{
    match find(d, name) {
        None => Some(Group::Nothing),
        Some(Opened::Date(_)) => Some(Group::Nothing),
        Some(Opened::Table(t)) => Some(Group::Named(t)),
        Some(Opened::List(l)) => Some(Group::Listed(l)),
        Some(_) => None,
    }
}

impl<'i> Group<'i> {
    /// The first name in it that is none of these and whose value cannot be passed over.
    pub fn find_blocked(&self, known: &Vec<&'static str>) -> (r: Option<String>)
        ensures
            r.deep_view() == self.group().blocked(known.deep_view()),
    {
        match self {
            Group::Named(t) => find_blocked(t, known),
            _ => None,
        }
    }

    /// What is set in it, taken apart.
    pub fn setting(&self, place: usize, name: &str) -> (r: Option<Opened<'i>>)
        ensures
            node_of(r) == self.group().setting(place as int, name@),
    {
        match self {
            Group::Nothing => None,
            Group::Named(t) => find(t, name),
            Group::Listed(l) => if place < l.len() {
                assert(items(l@)[place as int] == held(l@[place as int]));
                Some(open(&l[place]))
            } else {
                None
            },
        }
    }
}

/// One of several names: the name alone, or a table of it and nothing in it.
pub open spec fn choice(n: NodeView) -> Option<Seq<char>> {
    match n {
        NodeView::Text(s) => Some(s),
        NodeView::Table(t) => if t.len() == 1 && is_empty(t[0].1) {
            Some(t[0].0)
        } else {
            None
        },
        _ => None,
    }
}

/// A list or a table with nothing in it.
pub open spec fn is_empty(n: NodeView) -> bool {
    match n {
        NodeView::List(l) => l.len() == 0,
        NodeView::Table(t) => t.len() == 0,
        _ => false,
    }
}

fn holds_nothing(o: &Opened<'_>) -> (r: bool)
    ensures
        r == is_empty(o.node()),
{
    match o {
        Opened::List(l) => l.len() == 0,
        Opened::Table(t) => t.len() == 0,
        _ => false,
    }
}

/// One of several names.
pub fn choose_name(o: Opened<'_>) -> (r: Option<String>)
    ensures
        r.deep_view() == choice(o.node()),
{
    match o {
        Opened::Text(s) => Some(s),
        Opened::Table(t) => {
            if t.len() == 1 {
                assert(entries(t@)[0] == (t@[0].0@, held(t@[0].1)));
                if holds_nothing(&open(&t[0].1)) {
                    return Some(t[0].0.clone());
                }
            }
            None
        },
        _ => None,
    }
}

/// The texts of a table, by their names, or the first name of which something else is the
/// value.
pub open spec fn texts_of(t: Seq<(Seq<char>, NodeView)>) -> Result<
    Seq<(Seq<char>, Seq<char>)>,
    Seq<char>,
>
    decreases t.len(),
{
    if t.len() == 0 {
        Ok(Seq::empty())
    } else {
        match (texts_of(t.drop_last()), t.last().1) {
            (Err(name), _) => Err(name),
            (Ok(before), NodeView::Text(s)) => Ok(before.push((t.last().0, s))),
            (Ok(_), _) => Err(t.last().0),
        }
    }
}

proof fn lemma_no_texts(t: Seq<(Seq<char>, NodeView)>, n: int)
    requires
        0 <= n <= t.len(),
        texts_of(t.take(n)) is Err,
    ensures
        texts_of(t) == texts_of(t.take(n)),
    decreases t.len() - n,
{
    if n < t.len() {
        assert(t.take(n + 1).drop_last() =~= t.take(n));
        lemma_no_texts(t, n + 1);
    } else {
        assert(t.take(n) =~= t);
    }
}

/// What is said of a value that is no text.
pub open spec fn no_text(name: Seq<char>) -> Seq<char> {
    "the value of `"@ + name + "` is not a string"@
}

/// The texts at the top of the document that a text is, by their names, or why there are
/// none.
pub open spec fn texts_parsed(s: Seq<char>) -> Result<Seq<(Seq<char>, Seq<char>)>, Seq<char>> {
    match outlined(s) {
        Ok(d) => match texts_of(d) {
            Ok(t) => Ok(t),
            Err(name) => Err(no_text(name)),
        },
        Err(why) => Err(why),
    }
}

/// The texts at the top of the document that a text is, or why there are none.
pub fn read_texts(s: &str) -> (r: Result<Vec<(String, String)>, String>)
    ensures
        match r {
            Ok(v) => texts_parsed(s@) == Ok::<Seq<(Seq<char>, Seq<char>)>, Seq<char>>(
                v.deep_view(),
            ),
            Err(why) => texts_parsed(s@) == Err::<Seq<(Seq<char>, Seq<char>)>, Seq<char>>(why@),
        },
{
    let d = match read_outline(s) {
        Ok(d) => d,
        Err(e) => return Err(e),
    };
    let ghost all = entries(d@);
    let mut out: Vec<(String, String)> = Vec::new();
    let mut i: usize = 0;
    assert(out.deep_view() =~= Seq::<(Seq<char>, Seq<char>)>::empty());
    while i < d.len()
        invariant
            i <= d@.len() == all.len(),
            all == entries(d@),
            outlined(s@) == Ok::<Seq<(Seq<char>, NodeView)>, Seq<char>>(all),
            texts_of(all.take(i as int)) == Ok::<Seq<(Seq<char>, Seq<char>)>, Seq<char>>(
                out.deep_view(),
            ),
        decreases d@.len() - i,
    {
        let ghost before = out.deep_view();
        assert(all.take(i + 1).drop_last() =~= all.take(i as int));
        assert(all.take(i + 1).last() == (d@[i as int].0@, held(d@[i as int].1)));
        match open(&d[i].1) {
            Opened::Text(t) => {
                let ghost v = t@;
                out.push((d[i].0.clone(), t));
                assert(out.deep_view() =~= before.push((d@[i as int].0@, v)));
            },
            _ => {
                proof {
                    lemma_no_texts(all, i + 1);
                }
                return Err(join3("the value of `", d[i].0.as_str(), "` is not a string"));
            },
        }
        i += 1;
    }
    assert(all.take(i as int) =~= all);
    Ok(out)
}

} // verus!

//! A TOML document as plain values: what stands at its top, and what stands in the
//! tables there.

use crate::copied::Copied;
use crate::text::same_text;
use toml::{Table, Value};
use vstd::prelude::*;

verus! {

/// A value that is no table.
#[derive(Debug, Clone, PartialEq, Eq)]
pub enum Scalar {
    Text(String),
    Number(i64),
    Flag(bool),
    /// Anything else: a fraction, a date, a list, a table in a table.
    Other,
}

/// The model of a `Scalar`.
#[verifier::ext_equal]
pub enum ScalarView {
    Text(Seq<char>),
    Number(i64),
    Flag(bool),
    Other,
}

impl DeepView for Scalar {
    type V = ScalarView;

    open spec fn deep_view(&self) -> ScalarView {
        match self {
            Scalar::Text(s) => ScalarView::Text(s@),
            Scalar::Number(n) => ScalarView::Number(*n),
            Scalar::Flag(b) => ScalarView::Flag(*b),
            Scalar::Other => ScalarView::Other,
        }
    }
}

impl Copied for Scalar {
    fn copy(&self) -> (r: Self) {
        match self {
            Scalar::Text(s) => Scalar::Text(s.clone()),
            Scalar::Number(n) => Scalar::Number(*n),
            Scalar::Flag(b) => Scalar::Flag(*b),
            Scalar::Other => Scalar::Other,
        }
    }
}

/// A value at the top of a document.
#[derive(Debug, Clone, PartialEq, Eq)]
pub enum Item {
    Plain(Scalar),
    Table(Vec<(String, Scalar)>),
}

/// The model of an `Item`.
#[verifier::ext_equal]
pub enum ItemView {
    Plain(ScalarView),
    Table(Seq<(Seq<char>, ScalarView)>),
}

impl DeepView for Item {
    type V = ItemView;

    open spec fn deep_view(&self) -> ItemView {
        match self {
            Item::Plain(v) => ItemView::Plain(v.deep_view()),
            Item::Table(t) => ItemView::Table(t.deep_view()),
        }
    }
}

/// What `toml::from_str` makes of a text: what stands in the document that it is, by name,
/// or, in words for people, why it is none.
pub uninterp spec fn parsed(s: Seq<char>) -> Result<Seq<(Seq<char>, ItemView)>, Seq<char>>;

/// `toml::from_str` into a table, handed out as plain values, and its error as the text
/// that it displays. It fails on texts that are not TOML documents, on documents that nest
/// deeper than it follows, and on numbers that do not fit in 64 bits; what it returns, the
/// error's text too, is a function of the text alone.
#[verifier::external_body]
fn parse(s: &str) -> (r: Result<Vec<(String, Item)>, String>)
    ensures
        match r {
            Ok(v) => parsed(s@) == Ok::<Seq<(Seq<char>, ItemView)>, Seq<char>>(v.deep_view()),
            Err(why) => parsed(s@) == Err::<Seq<(Seq<char>, ItemView)>, Seq<char>>(why@),
        },
{
    let plain = |v: Value| match v {
        Value::String(s) => Scalar::Text(s),
        Value::Integer(n) => Scalar::Number(n),
        Value::Boolean(b) => Scalar::Flag(b),
        Value::Float(_) | Value::Datetime(_) | Value::Array(_) | Value::Table(_) => Scalar::Other,
    };
    let table: Table = toml::from_str(s).map_err(|e| e.to_string())?;
    Ok(table.into_iter().map(|(k, v)| match v {
        Value::Table(t) => (k, Item::Table(t.into_iter().map(|(k, v)| (k, plain(v))).collect())),
        v => (k, Item::Plain(plain(v))),
    }).collect())
}

/// What stands in the TOML document that a text is, by name; `None` where the text is not
/// one, or one that cannot be held.
pub open spec fn document(s: Seq<char>) -> Option<Seq<(Seq<char>, ItemView)>> {
    match parsed(s) {
        Ok(d) => Some(d),
        Err(_) => None,
    }
}

/// What stands in the TOML document that a text is, or why it is none.
pub fn read(s: &str) -> (r: Result<Vec<(String, Item)>, String>)
    ensures
        match r {
            Ok(v) => parsed(s@) == Ok::<Seq<(Seq<char>, ItemView)>, Seq<char>>(v.deep_view()),
            Err(why) => parsed(s@) == Err::<Seq<(Seq<char>, ItemView)>, Seq<char>>(why@),
        },
{
    parse(s)
}

/// The value of a name in a table, from `i` on.
pub open spec fn value_from(t: Seq<(Seq<char>, ScalarView)>, key: Seq<char>, i: int) -> Option<
    ScalarView,
>
    decreases t.len() - i,
{
    if i < 0 || i >= t.len() {
        None
    } else if t[i].0 == key {
        Some(t[i].1)
    } else {
        value_from(t, key, i + 1)
    }
}

/// The value of a name in a table.
pub open spec fn value_of(t: Seq<(Seq<char>, ScalarView)>, key: Seq<char>) -> Option<ScalarView> {
    value_from(t, key, 0)
}

/// What stands under a name at the top of a document, from `i` on.
pub open spec fn item_from(d: Seq<(Seq<char>, ItemView)>, name: Seq<char>, i: int) -> Option<
    ItemView,
>
    decreases d.len() - i,
{
    if i < 0 || i >= d.len() {
        None
    } else if d[i].0 == name {
        Some(d[i].1)
    } else {
        item_from(d, name, i + 1)
    }
}

/// What stands under a name at the top of a document.
pub open spec fn item_of(d: Seq<(Seq<char>, ItemView)>, name: Seq<char>) -> Option<ItemView> {
    item_from(d, name, 0)
}

/// The place of a name in a table.
pub fn find_value(t: &Vec<(String, Scalar)>, key: &str) -> (r: Option<usize>)
    ensures
        match r {
            Some(i) => i < t@.len() && value_of(t.deep_view(), key@) == Some(t@[i as int].1.deep_view()),
            None => value_of(t.deep_view(), key@) is None,
        },
{
    let ghost all = t.deep_view();
    let mut i: usize = 0;
    while i < t.len()
        invariant
            i <= t@.len() == all.len(),
            all == t.deep_view(),
            value_of(all, key@) == value_from(all, key@, i as int),
        decreases t@.len() - i,
    {
        assert(all[i as int] == (t@[i as int].0@, t@[i as int].1.deep_view()));
        if same_text(t[i].0.as_str(), key) {
            return Some(i);
        }
        i += 1;
    }
    None
}

/// The place of a name at the top of a document.
pub fn find_item(d: &Vec<(String, Item)>, name: &str) -> (r: Option<usize>)
    ensures
        match r {
            Some(i) => i < d@.len() && item_of(d.deep_view(), name@) == Some(
                d@[i as int].1.deep_view(),
            ),
            None => item_of(d.deep_view(), name@) is None,
        },
{
    let ghost all = d.deep_view();
    let mut i: usize = 0;
    while i < d.len()
        invariant
            i <= d@.len() == all.len(),
            all == d.deep_view(),
            item_of(all, name@) == item_from(all, name@, i as int),
        decreases d@.len() - i,
    {
        assert(all[i as int] == (d@[i as int].0@, d@[i as int].1.deep_view()));
        if same_text(d[i].0.as_str(), name) {
            return Some(i);
        }
        i += 1;
    }
    None
}

/// The texts of a table, by their names; `None` where something else stands in it.
pub open spec fn texts_in(t: Seq<(Seq<char>, ScalarView)>) -> Option<
    Seq<(Seq<char>, Seq<char>)>,
>
    decreases t.len(),
{
    if t.len() == 0 {
        Some(Seq::empty())
    } else {
        match (texts_in(t.drop_last()), t.last().1) {
            (Some(before), ScalarView::Text(s)) => Some(before.push((t.last().0, s))),
            _ => None,
        }
    }
}

proof fn lemma_no_texts(t: Seq<(Seq<char>, ScalarView)>, n: int)
    requires
        0 <= n <= t.len(),
        texts_in(t.take(n)) is None,
    ensures
        texts_in(t) is None,
    decreases t.len() - n,
{
    if n < t.len() {
        assert(t.take(n + 1).drop_last() =~= t.take(n));
        lemma_no_texts(t, n + 1);
    } else {
        assert(t.take(n) =~= t);
    }
}

/// The texts of a table, where nothing else stands in it.
pub fn only_texts(t: &Vec<(String, Scalar)>) -> (r: Option<Vec<(String, String)>>)
    ensures
        r.deep_view() == texts_in(t.deep_view()),
{
    let ghost all = t.deep_view();
    let mut out: Vec<(String, String)> = Vec::new();
    let mut i: usize = 0;
    assert(out.deep_view() =~= Seq::<(Seq<char>, Seq<char>)>::empty());
    while i < t.len()
        invariant
            i <= t@.len() == all.len(),
            all == t.deep_view(),
            texts_in(all.take(i as int)) == Some(out.deep_view()),
        decreases t@.len() - i,
    {
        let ghost before = out.deep_view();
        assert(all.take(i + 1).drop_last() =~= all.take(i as int));
        assert(all.take(i + 1).last() == (t@[i as int].0@, t@[i as int].1.deep_view()));
        match &t[i].1 {
            Scalar::Text(s) => {
                out.push((t[i].0.clone(), s.clone()));
                assert(out.deep_view() =~= before.push((t@[i as int].0@, s@)));
            },
            _ => {
                proof {
                    lemma_no_texts(all, i + 1);
                }
                return None;
            },
        }
        i += 1;
    }
    assert(all.take(i as int) =~= all);
    Some(out)
}

} // verus!

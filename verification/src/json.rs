//! Lists in JSON, as far as rows hold them: file names, edits, and the history
//! of a text.

use vstd::prelude::*;

verus! {

/// A value of a list in JSON that is no list itself.
#[derive(Debug)]
pub enum Scalar {
    /// A number that is a whole number within 64 bits.
    Integer(i64),
    Text(String),
    /// Anything else.
    Other,
}

/// A value that is no list, as a mathematical value.
pub enum ScalarView {
    Integer(i64),
    Text(Seq<char>),
    Other,
}

impl View for Scalar {
    type V = ScalarView;

    open spec fn view(&self) -> ScalarView {
        match self {
            Scalar::Integer(i) => ScalarView::Integer(*i),
            Scalar::Text(s) => ScalarView::Text(s@),
            Scalar::Other => ScalarView::Other,
        }
    }
}

/// The values of a list.
pub open spec fn scalars_view(v: Seq<Scalar>) -> Seq<ScalarView> {
    Seq::new(v.len(), |i: int| v[i]@)
}

/// The values of a list of lists.
pub open spec fn table_view(v: Seq<Vec<Scalar>>) -> Seq<Seq<ScalarView>> {
    Seq::new(v.len(), |i: int| scalars_view(v[i]@))
}

/// A value of a list in JSON: a list of values that are no lists, or a value
/// that is no list.
#[derive(Debug)]
pub enum Item {
    Single(Scalar),
    List(Vec<Scalar>),
}

/// A value of a list, as a mathematical value.
pub enum ItemView {
    Single(ScalarView),
    List(Seq<ScalarView>),
}

impl View for Item {
    type V = ItemView;

    open spec fn view(&self) -> ItemView {
        match self {
            Item::Single(s) => ItemView::Single(s@),
            Item::List(v) => ItemView::List(scalars_view(v@)),
        }
    }
}

/// The values of a list of items.
pub open spec fn items_view(v: Seq<Item>) -> Seq<ItemView> {
    Seq::new(v.len(), |i: int| v[i]@)
}

/// The values of a list in JSON, as `serde_json` reads one; `None` where the
/// text is not a list.
pub uninterp spec fn json_items(raw: Seq<char>) -> Option<Seq<ItemView>>;

/// Calls `serde_json::from_str` for a list of values, and `Number::as_i64` on
/// each number. What the crate returns is carried over value by value: a list
/// becomes the list of its values, and a list that stands inside such a list
/// counts as anything else. Gives `None` where the crate reports an error.
#[verifier::external_body]
fn decode_items(raw: &str) -> (r: Option<Vec<Item>>)
    ensures
        (match r {
            Some(v) => Some(items_view(v@)),
            None => None,
        }) == json_items(raw@),
{
    let scalar = |v: serde_json::Value| match v {
        serde_json::Value::String(s) => Scalar::Text(s),
        serde_json::Value::Number(n) => n.as_i64().map_or(Scalar::Other, Scalar::Integer),
        _ => Scalar::Other,
    };
    let items = serde_json::from_str::<Vec<serde_json::Value>>(raw).ok()?;
    Some(items.into_iter().map(|v| match v {
        serde_json::Value::Array(list) => Item::List(list.into_iter().map(scalar).collect()),
        single => Item::Single(scalar(single)),
    }).collect())
}

/// The strings that the items are; `None` where one of them is no string.
pub open spec fn strings_of(items: Seq<ItemView>) -> Option<Seq<Seq<char>>>
    decreases items.len(),
{
    if items.len() == 0 {
        Some(Seq::empty())
    } else {
        match (strings_of(items.drop_last()), items.last()) {
            (Some(front), ItemView::Single(ScalarView::Text(s))) => Some(front.push(s)),
            _ => None,
        }
    }
}

/// The lists that the items are; `None` where one of them is no list.
pub open spec fn lists_of(items: Seq<ItemView>) -> Option<Seq<Seq<ScalarView>>>
    decreases items.len(),
{
    if items.len() == 0 {
        Some(Seq::empty())
    } else {
        match (lists_of(items.drop_last()), items.last()) {
            (Some(front), ItemView::List(list)) => Some(front.push(list)),
            _ => None,
        }
    }
}

/// The strings of a list of strings in JSON; `None` where the text is not a
/// list of strings.
pub open spec fn json_strings(raw: Seq<char>) -> Option<Seq<Seq<char>>> {
    match json_items(raw) {
        Some(items) => strings_of(items),
        None => None,
    }
}

/// The lists of a list of lists in JSON; `None` where the text is not a list
/// of lists.
pub open spec fn json_table(raw: Seq<char>) -> Option<Seq<Seq<ScalarView>>> {
    match json_items(raw) {
        Some(items) => lists_of(items),
        None => None,
    }
}

/// Items of which one of the first is no string are no strings as a whole.
pub proof fn lemma_no_strings_stays(items: Seq<ItemView>, n: int)
    requires
        0 <= n <= items.len(),
    ensures
        strings_of(items.take(n)) is None ==> strings_of(items) is None,
    decreases items.len() - n,
{
    if n < items.len() {
        assert(items.take(n + 1).drop_last() =~= items.take(n));
        lemma_no_strings_stays(items, n + 1);
    } else {
        assert(items.take(n) =~= items);
    }
}

/// Items of which one of the first is no list are no lists as a whole.
pub proof fn lemma_no_lists_stays(items: Seq<ItemView>, n: int)
    requires
        0 <= n <= items.len(),
    ensures
        lists_of(items.take(n)) is None ==> lists_of(items) is None,
    decreases items.len() - n,
{
    if n < items.len() {
        assert(items.take(n + 1).drop_last() =~= items.take(n));
        lemma_no_lists_stays(items, n + 1);
    } else {
        assert(items.take(n) =~= items);
    }
}

/// The texts of a sequence of strings.
pub open spec fn strings_view(v: Seq<String>) -> Seq<Seq<char>> {
    Seq::new(v.len(), |i: int| v[i]@)
}

/// Reads a list of strings.
pub fn decode_strings(raw: &str) -> (r: Option<Vec<String>>)
    ensures
        (match r {
            Some(v) => Some(strings_view(v@)),
            None => None,
        }) == json_strings(raw@),
{
    let items = match decode_items(raw) {
        Some(items) => items,
        None => {
            return None;
        },
    };
    let ghost all = items_view(items@);
    let mut out: Vec<String> = Vec::new();
    for item in it: items
        invariant
            it.seq() == items@,
            all == items_view(items@),
            json_items(raw@) == Some(all),
            strings_of(all.take(it.index() as int)) == Some(strings_view(out@)),
    {
        let ghost i = it.index() as int;
        proof {
            assert(all.take(i + 1).drop_last() =~= all.take(i));
            lemma_no_strings_stays(all, i + 1);
        }
        match item {
            Item::Single(Scalar::Text(s)) => {
                out.push(s);
            },
            _ => {
                return None;
            },
        }
    }
    assert(all.take(items@.len() as int) =~= all);
    Some(out)
}

/// Reads a list of lists.
pub fn decode_table(raw: &str) -> (r: Option<Vec<Vec<Scalar>>>)
    ensures
        (match r {
            Some(v) => Some(table_view(v@)),
            None => None,
        }) == json_table(raw@),
{
    let items = match decode_items(raw) {
        Some(items) => items,
        None => {
            return None;
        },
    };
    let ghost all = items_view(items@);
    let mut out: Vec<Vec<Scalar>> = Vec::new();
    for item in it: items
        invariant
            it.seq() == items@,
            all == items_view(items@),
            json_items(raw@) == Some(all),
            lists_of(all.take(it.index() as int)) == Some(table_view(out@)),
    {
        let ghost i = it.index() as int;
        proof {
            assert(all.take(i + 1).drop_last() =~= all.take(i));
            lemma_no_lists_stays(all, i + 1);
        }
        match item {
            Item::List(list) => {
                out.push(list);
            },
            _ => {
                return None;
            },
        }
    }
    assert(all.take(items@.len() as int) =~= all);
    Some(out)
}

/// The texts of a sequence of pairs of strings.
pub open spec fn pairs_view(v: Seq<(String, String)>) -> Seq<(Seq<char>, Seq<char>)> {
    Seq::new(v.len(), |i: int| (v[i].0@, v[i].1@))
}

/// A list of pairs of strings in JSON, each pair a list of two, as
/// `serde_json` writes it.
pub uninterp spec fn json_pairs(pairs: Seq<(Seq<char>, Seq<char>)>) -> Seq<char>;

/// Calls `serde_json::to_string` on the list of the pairs, each as a list of two
/// strings.
#[verifier::external_body]
pub(crate) fn encode_pairs(pairs: &Vec<(String, String)>) -> (r: String)
    ensures
        r@ == json_pairs(pairs_view(pairs@)),
{
    let lists: Vec<[&str; 2]> = pairs.iter().map(|p| [p.0.as_str(), p.1.as_str()]).collect();
    serde_json::to_string(&lists).unwrap_or_default()
}

} // verus!

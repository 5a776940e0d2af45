//! Pieces of the subscription requests: JSON lists of stream names, and
//! channel templates with the market filled in.

use vstd::prelude::*;

verus! {

/// `text` as a JSON string: in double quotes, with the characters escaped
/// that JSON wants escaped.
pub uninterp spec fn json_quoted(text: Seq<char>) -> Seq<char>;

/// Writes a string as JSON with `serde_json`: the `Display` of a
/// `Value::String` is its compact JSON text. The result is named, not
/// defined.
#[verifier::external_body]
fn quote_json(text: &str) -> (quoted: String)
    ensures
        quoted@ == json_quoted(text@),
{
    serde_json::Value::String(text.to_owned()).to_string()
}

/// The JSON strings of `names` with commas between them.
pub open spec fn json_items(names: Seq<Seq<char>>) -> Seq<char>
    decreases names.len(),
{
    if names.len() == 0 {
        Seq::empty()
    } else if names.len() == 1 {
        json_quoted(names[0])
    } else {
        json_items(names.drop_last()) + ","@ + json_quoted(names.last())
    }
}

/// `names` as a JSON array of strings, without white space.
pub open spec fn json_array(names: Seq<Seq<char>>) -> Seq<char> {
    "["@ + json_items(names) + "]"@
}

/// The texts of `names`.
pub open spec fn texts(names: Seq<String>) -> Seq<Seq<char>> {
    names.map_values(|name: String| name@)
}

/// `names` as a JSON array of strings, without white space.
pub fn json_string_array(names: &Vec<String>) -> (array: String)
    ensures
        array@ == json_array(texts(names@)),
{
    let mut array = String::from_str("[");
    let mut n: usize = 0;
    while n < names.len()
        invariant
            n <= names.len(),
            array@ == "["@ + json_items(texts(names@).take(n as int)),
        decreases names.len() - n,
    {
        let quoted = quote_json(names[n].as_str());
        if n > 0 {
            array.append(",");
        }
        array.append(quoted.as_str());
        proof {
            let all = texts(names@);
            assert(all.take(n + 1).drop_last() =~= all.take(n as int));
            assert(all.take(n + 1).last() == names@[n as int]@);
            assert(array@ =~= "["@ + json_items(all.take(n + 1)));
        }
        n += 1;
    }
    proof {
        assert(texts(names@).take(n as int) =~= texts(names@));
    }
    array.append("]");
    array
}

/// `text` with every occurrence of `from` replaced by `to`: occurrences are
/// found from the left and do not overlap. An empty `from` is not looked
/// for.
pub open spec fn replaced(text: Seq<char>, from: Seq<char>, to: Seq<char>) -> Seq<char>
    decreases text.len(),
{
    if from.len() == 0 || text.len() < from.len() {
        text
    } else if text.take(from.len() as int) == from {
        to + replaced(text.skip(from.len() as int), from, to)
    } else {
        seq![text[0]] + replaced(text.skip(1), from, to)
    }
}

/// `str::replace`, for a pattern that is not empty: all matches of the
/// pattern, found from the left without overlap, are replaced.
#[verifier::external_body]
fn replace_all(text: &str, from: &str, to: &str) -> (result: String)
    requires
        from@.len() > 0,
    ensures
        result@ == replaced(text@, from@, to@),
{
    text.replace(from, to)
}

/// The name of a stream: the channel template with the market in the place
/// of each `{}`.
pub open spec fn filled(template: Seq<char>, market: Seq<char>) -> Seq<char> {
    replaced(template, "{}"@, market)
}

/// The name of a stream: the channel template with the market in the place
/// of each `{}`.
pub fn fill_template(template: &str, market: &str) -> (name: String)
    ensures
        name@ == filled(template@, market@),
{
    proof {
        reveal_strlit("{}");
    }
    replace_all(template, "{}", market)
}

/// A text in which the first character of `from` does not occur holds no
/// occurrence of `from`, and stays as it is.
pub proof fn lemma_replaced_none(text: Seq<char>, from: Seq<char>, to: Seq<char>)
    requires
        from.len() > 0,
        forall|i: int| 0 <= i < text.len() ==> text[i] != from[0],
    ensures
        replaced(text, from, to) == text,
    decreases text.len(),
{
    if text.len() >= from.len() {
        assert(text.take(from.len() as int)[0] == text[0]);
        assert forall|i: int| 0 <= i < text.skip(1).len() implies text.skip(1)[i] != from[0] by {
            assert(text.skip(1)[i] == text[i + 1]);
        }
        lemma_replaced_none(text.skip(1), from, to);
        assert(seq![text[0]] + text.skip(1) =~= text);
    }
}

/// Where `from` stands once, between two texts in which its first
/// character does not occur, replacing puts `to` in its place and leaves
/// the rest.
pub proof fn lemma_replaced_once(prefix: Seq<char>, from: Seq<char>, to: Seq<char>, suffix: Seq<char>)
    requires
        from.len() > 0,
        forall|i: int| 0 <= i < prefix.len() ==> prefix[i] != from[0],
        forall|i: int| 0 <= i < suffix.len() ==> suffix[i] != from[0],
    ensures
        replaced(prefix + from + suffix, from, to) == prefix + to + suffix,
    decreases prefix.len(),
{
    let text = prefix + from + suffix;
    if prefix.len() == 0 {
        assert(text.take(from.len() as int) =~= from);
        assert(text.skip(from.len() as int) =~= suffix);
        lemma_replaced_none(suffix, from, to);
        assert(to + suffix =~= prefix + to + suffix);
    } else {
        assert(text.take(from.len() as int)[0] == prefix[0]);
        let rest = prefix.skip(1);
        assert forall|i: int| 0 <= i < rest.len() implies rest[i] != from[0] by {
            assert(rest[i] == prefix[i + 1]);
        }
        lemma_replaced_once(rest, from, to, suffix);
        assert(text.skip(1) =~= rest + from + suffix);
        assert(text[0] == prefix[0]);
        assert(seq![prefix[0]] + (rest + to + suffix) =~= prefix + to + suffix);
    }
}

} // verus!

//! The arguments of a command: the placeholders in its text, and the values put in their place.
//!
//! A command may hold placeholders such as `{file}` or `{file#path on the player}`. Each gives
//! the command one argument; a placeholder that occurs twice gives one argument all the same.

use std::sync::Arc;

use indexmap::IndexSet;
use vstd::prelude::*;

use crate::text::{chars_of, digit_of, find_char};
#[allow(unused_imports)]
use crate::text::{
    all_digits, digit_value, lemma_place_of, lemma_prefix_is_no_larger,
    lemma_suffix_is_no_larger, number_value, place_of,
};

verus! {

/// The names of the arguments of a command, each once, in the order of their first placeholder.
pub type ArgumentsMap = Arc<IndexSet<String>>;

/// The insertion-ordered set of the `indexmap` crate.
#[verifier::external_type_specification]
#[verifier::external_body]
#[verifier::reject_recursive_types(T)]
#[verifier::reject_recursive_types(S)]
pub struct ExIndexSet<T, S>(IndexSet<T, S>);

/// The texts that a set holds, in its own order.
pub uninterp spec fn names_in(set: IndexSet<String>) -> Seq<Seq<char>>;

/// The names that a handle leads to.
pub open spec fn argument_names(arguments: &ArgumentsMap) -> Seq<Seq<char>> {
    names_in(**arguments)
}

/// Whether the `regex` crate counts a character beyond ASCII among the word characters `\w`.
pub uninterp spec fn is_wide_word_char(c: char) -> bool;

/// The text of a command with values put in for its placeholders, as `interpolator::format`
/// writes it; `None` where that reports an error.
pub uninterp spec fn interpolated(
    template: Seq<char>,
    values: Map<Seq<char>, Seq<char>>,
) -> Option<Seq<char>>;

/// The pattern of a placeholder: the name is its first group.
pub const PLACEHOLDER: &'static str = "\\{([\\w \\#]*)?[^\\}\\{]*\\}";

/// A character that may stand in the name of an argument: a word character, a blank or `#`.
pub open spec fn is_name_char(c: char) -> bool {
    if (c as u32) < 128 {
        ||| 'a' <= c <= 'z'
        ||| 'A' <= c <= 'Z'
        ||| '0' <= c <= '9'
        ||| c == '_'
        ||| c == ' '
        ||| c == '#'
    } else {
        is_wide_word_char(c)
    }
}

/// The longest run of name characters at the start of `s`.
pub open spec fn leading_name(s: Seq<char>) -> Seq<char>
    decreases s.len(),
{
    if s.len() == 0 || !is_name_char(s[0]) {
        Seq::empty()
    } else {
        seq![s[0]] + leading_name(s.drop_first())
    }
}

pub open spec fn is_brace(c: char) -> bool {
    c == '{' || c == '}'
}

/// The brace that opens `s` and the one at `j` enclose a placeholder.
pub open spec fn encloses(s: Seq<char>, j: int) -> bool {
    &&& 0 < j < s.len()
    &&& s[0] == '{'
    &&& s[j] == '}'
    &&& forall|k: int| 0 < k < j ==> !is_brace(#[trigger] s[k])
}

/// The names in the placeholders of `s`, from left to right, repetitions included.
pub open spec fn placeholder_names(s: Seq<char>) -> Seq<Seq<char>>
    decreases s.len(),
{
    if s.len() == 0 {
        Seq::empty()
    } else if exists|j: int| encloses(s, j) {
        seq![leading_name(s.drop_first())] + placeholder_names(s.drop_first())
    } else {
        placeholder_names(s.drop_first())
    }
}

/// `names` without those that stand further left already.
pub open spec fn first_occurrences(names: Seq<Seq<char>>) -> Seq<Seq<char>>
    decreases names.len(),
{
    if names.len() == 0 {
        Seq::empty()
    } else if names.drop_last().contains(names.last()) {
        first_occurrences(names.drop_last())
    } else {
        first_occurrences(names.drop_last()).push(names.last())
    }
}

/// The names of the arguments of a command.
pub open spec fn arguments_of(command: Seq<char>) -> Seq<Seq<char>> {
    first_occurrences(placeholder_names(command))
}

/// The texts of a vector of strings.
pub open spec fn texts(v: Seq<String>) -> Seq<Seq<char>> {
    v.map_values(|s: String| s@)
}

/// `regex::Regex::new` on the pattern of a placeholder, then `Regex::captures_iter` on a command:
/// the first group of every match, from left to right.
///
/// The matches do not overlap. The group takes as many name characters as there are after the
/// opening brace, and takes part in every match.
#[verifier::external_body]
pub(crate) fn captured_names(pattern: &str, command: &str) -> (names: Vec<String>)
    requires
        pattern@ == PLACEHOLDER@,
    ensures
        texts(names@) == placeholder_names(command@),
        forall|i: int, k: int|
            #![trigger names@[i]@[k]]
            0 <= i < names.len() && 0 <= k < names@[i]@.len() && names@[i]@[k] as u32 >= 128
                ==> is_wide_word_char(names@[i]@[k]),
{
    let regex = regex::Regex::new(pattern).unwrap();
    regex.captures_iter(command).map(|caps| caps.get(1).unwrap().as_str().to_owned()).collect()
}

/// `indexmap::IndexSet::new`: a set that holds nothing.
#[verifier::external_body]
pub(crate) fn new_name_set() -> (set: IndexSet<String>)
    ensures
        names_in(set) == Seq::<Seq<char>>::empty(),
{
    IndexSet::new()
}

/// `indexmap::IndexSet::insert`: puts the text at the end, unless the set holds it already.
#[verifier::external_body]
fn insert_name(set: &mut IndexSet<String>, name: String) -> (inserted: bool)
    ensures
        inserted == !names_in(*old(set)).contains(name@),
        names_in(*final(set)) == if inserted {
            names_in(*old(set)).push(name@)
        } else {
            names_in(*old(set))
        },
{
    set.insert(name)
}

/// `indexmap::IndexSet::len`: how many texts the set holds.
#[verifier::external_body]
pub(crate) fn name_count(set: &IndexSet<String>) -> (count: usize)
    ensures
        count == names_in(*set).len(),
{
    set.len()
}

/// `indexmap::IndexSet::get_index`: the text at a place, where there is one.
#[verifier::external_body]
pub(crate) fn name_at(set: &IndexSet<String>, index: usize) -> (name: Option<&String>)
    ensures
        name is Some <==> index < names_in(*set).len(),
        name matches Some(n) ==> n@ == names_in(*set)[index as int],
{
    set.get_index(index)
}

/// `std::sync::Arc::clone`: another handle on the same set.
#[verifier::external_body]
pub(crate) fn share(arguments: &ArgumentsMap) -> (handle: ArgumentsMap)
    ensures
        handle == arguments,
{
    Arc::clone(arguments)
}

/// No name occurs twice in `first_occurrences`, and every name occurs in it.
pub proof fn lemma_first_occurrences(names: Seq<Seq<char>>)
    ensures
        first_occurrences(names).no_duplicates(),
        forall|name: Seq<char>|
            #[trigger] first_occurrences(names).contains(name) <==> names.contains(name),
    decreases names.len(),
{
    if names.len() > 0 {
        let head = names.drop_last();
        let last = names.last();
        lemma_first_occurrences(head);
        let all = first_occurrences(names);
        assert(names =~= head.push(last));
        assert forall|name: Seq<char>| #[trigger] all.contains(name) <==> names.contains(name) by {
            if names.contains(name) {
                let i = choose|i: int| 0 <= i < names.len() && names[i] == name;
                if i < head.len() {
                    assert(head[i] == name);
                    assert(first_occurrences(head).contains(name));
                    let k = choose|k: int|
                        0 <= k < first_occurrences(head).len() && first_occurrences(head)[k]
                            == name;
                    assert(all[k] == name);
                } else if !head.contains(last) {
                    assert(all.last() == name);
                    assert(all[all.len() - 1] == name);
                }
            }
            if all.contains(name) {
                let k = choose|k: int| 0 <= k < all.len() && all[k] == name;
                if k < first_occurrences(head).len() {
                    assert(first_occurrences(head)[k] == name);
                    assert(first_occurrences(head).contains(name));
                    let i = choose|i: int| 0 <= i < head.len() && head[i] == name;
                    assert(names[i] == name);
                } else {
                    assert(names[names.len() - 1] == name);
                }
            }
        }
        if !head.contains(last) {
            assert(!first_occurrences(head).contains(last));
        }
    }
}

/// Gathers names into a set that keeps each at its first place.
pub fn collect_names(names: Vec<String>) -> (arguments: ArgumentsMap)
    ensures
        argument_names(&arguments) == first_occurrences(texts(names@)),
{
    let mut set = new_name_set();
    let mut i: usize = 0;
    while i < names.len()
        invariant
            i <= names.len(),
            names_in(set) == first_occurrences(texts(names@).take(i as int)),
        decreases names.len() - i,
    {
        proof {
            let all = texts(names@);
            assert(all.take(i + 1).drop_last() =~= all.take(i as int));
            assert(all.take(i + 1).last() == names@[i as int]@);
            lemma_first_occurrences(all.take(i as int));
        }
        let _ = insert_name(&mut set, names[i].clone());
        i += 1;
    }
    assert(texts(names@).take(i as int) =~= texts(names@));
    Arc::new(set)
}

/// Two equal braces, which stand for one.
pub open spec fn starts_with_pair(s: Seq<char>) -> bool {
    s.len() >= 2 && is_brace(s[0]) && s[1] == s[0]
}

/// The largest width that a value can be padded to.
pub const MAX_WIDTH: u32 = 65535;

/// No run of decimal digits in `s` spells more than `MAX_WIDTH`.
pub open spec fn small_numbers(s: Seq<char>) -> bool {
    forall|i: int, j: int|
        0 <= i <= j <= s.len() && all_digits(#[trigger] s.subrange(i, j), 10) ==> number_value(
            s.subrange(i, j),
            10,
        ) <= MAX_WIDTH
}

/// What follows the first colon of a placeholder says how its value is laid out.
pub open spec fn layout_part(placeholder: Seq<char>) -> Seq<char> {
    placeholder.skip(place_of(placeholder, ':'))
}

/// Every brace that opens a placeholder of a template is closed, and no layout asks for a width
/// beyond `MAX_WIDTH`.
pub open spec fn well_closed(s: Seq<char>) -> bool
    decreases s.len(),
{
    if s.len() == 0 {
        true
    } else if starts_with_pair(s) {
        well_closed(s.skip(2))
    } else if s[0] == '{' {
        let end = place_of(s, '}');
        &&& end < s.len()
        &&& small_numbers(layout_part(s.subrange(1, end)))
        &&& 0 <= end
        &&& well_closed(s.skip(end + 1))
    } else {
        well_closed(s.skip(1))
    }
}

/// Every placeholder of a closed template is made of name characters alone and does not start
/// with a blank.
pub open spec fn all_plain(s: Seq<char>) -> bool
    decreases s.len(),
{
    if s.len() == 0 {
        true
    } else if starts_with_pair(s) {
        all_plain(s.skip(2))
    } else if s[0] == '{' {
        let end = place_of(s, '}');
        &&& 0 <= end < s.len()
        &&& forall|i: int| 1 <= i < end ==> is_name_char(#[trigger] s[i])
        &&& end > 1 ==> s[1] != ' '
        &&& all_plain(s.skip(end + 1))
    } else {
        all_plain(s.skip(1))
    }
}

/// A template with each placeholder replaced by the value of that name; `None` where a value is
/// missing.
pub open spec fn filled(s: Seq<char>, values: Map<Seq<char>, Seq<char>>) -> Option<Seq<char>>
    decreases s.len(),
{
    if s.len() == 0 {
        Some(Seq::empty())
    } else if starts_with_pair(s) {
        prefixed(seq![s[0]], filled(s.skip(2), values))
    } else if s[0] == '{' {
        let end = place_of(s, '}');
        if 0 <= end < s.len() && values.contains_key(s.subrange(1, end)) {
            prefixed(values[s.subrange(1, end)], filled(s.skip(end + 1), values))
        } else {
            None
        }
    } else {
        prefixed(seq![s[0]], filled(s.skip(1), values))
    }
}

/// `rest` with `head` before it, where there is a rest.
pub open spec fn prefixed(head: Seq<char>, rest: Option<Seq<char>>) -> Option<Seq<char>> {
    match rest {
        Some(tail) => Some(head + tail),
        None => None,
    }
}

/// The values by name; of two values for one name the later counts.
pub open spec fn values_by_name(pairs: Seq<(String, String)>) -> Map<Seq<char>, Seq<char>>
    decreases pairs.len(),
{
    if pairs.len() == 0 {
        Map::empty()
    } else {
        values_by_name(pairs.drop_last()).insert(pairs.last().0@, pairs.last().1@)
    }
}

/// The text of an optional string.
pub open spec fn text_of(s: Option<String>) -> Option<Seq<char>> {
    match s {
        Some(t) => Some(t@),
        None => None,
    }
}

/// `interpolator::format` with `Formattable::display` values, and `None` for its errors.
///
/// On a template that is not closed, or that asks for a larger width, the call may panic. Where
/// all placeholders are plain names, it puts each value in the place of its name and fails where
/// one is missing: a name reaches from the first character that is not white space to a colon or
/// the closing brace, and no name character but the blank is white space. How a layout pads or
/// cuts a value is not spelled out.
#[verifier::external_body]
fn interpolate(template: &str, values: &Vec<(String, String)>) -> (text: Option<String>)
    requires
        well_closed(template@),
    ensures
        text_of(text) == interpolated(template@, values_by_name(values@)),
        all_plain(template@) ==> text_of(text) == filled(template@, values_by_name(values@)),
{
    let context: std::collections::HashMap<&str, interpolator::Formattable> = values
        .iter()
        .map(|v| (v.0.as_str(), interpolator::Formattable::display(&v.1)))
        .collect();
    interpolator::format(template, &context).ok()
}

/// Tells whether no run of digits among some characters spells more than `MAX_WIDTH`.
fn has_small_numbers(chars: &Vec<char>, from: usize, to: usize) -> (small: bool)
    requires
        from <= to <= chars.len(),
    ensures
        small == small_numbers(chars@.subrange(from as int, to as int)),
{
    let ghost part = chars@.subrange(from as int, to as int);
    let mut value: u32 = 0;
    let mut i: usize = from;
    let ghost mut start: int = 0;
    while i < to
        invariant
            from <= i <= to <= chars.len(),
            part == chars@.subrange(from as int, to as int),
            0 <= start <= i - from,
            start > 0 ==> digit_value(part[start - 1], 10) is None,
            all_digits(part.subrange(start, i - from), 10),
            value == number_value(part.subrange(start, i - from), 10),
            value <= MAX_WIDTH,
            forall|a: int, b: int|
                0 <= a <= b <= i - from && all_digits(#[trigger] part.subrange(a, b), 10)
                    ==> number_value(part.subrange(a, b), 10) <= MAX_WIDTH,
        decreases to - i,
    {
        let ghost k = i - from;
        assert(part[k] == chars[i as int]);
        match digit_of(chars[i], 10) {
            Some(d) => {
                value = value * 10 + d;
                let ghost run = part.subrange(start, k + 1);
                assert(run.drop_last() =~= part.subrange(start, k));
                assert(run.last() == part[k]);
                assert(value == number_value(run, 10));
                assert forall|j: int| 0 <= j < run.len() implies digit_value(
                    #[trigger] run[j],
                    10,
                ) is Some by {
                    if j < k - start {
                        assert(run[j] == part.subrange(start, k)[j]);
                    }
                }
                if value > MAX_WIDTH {
                    return false;
                }
                assert forall|a: int, b: int|
                    0 <= a <= b <= k + 1 && all_digits(
                        #[trigger] part.subrange(a, b),
                        10,
                    ) implies number_value(part.subrange(a, b), 10) <= MAX_WIDTH by {
                    if b == k + 1 {
                        if a < start {
                            assert(part.subrange(a, b)[start - 1 - a] == part[start - 1]);
                        } else {
                            lemma_suffix_is_no_larger(part, start, a, b, 10);
                        }
                    }
                }
            },
            None => {
                value = 0;
                proof {
                    start = k + 1;
                }
                assert(part.subrange(k + 1, k + 1) =~= Seq::<char>::empty());
                assert forall|a: int, b: int|
                    0 <= a <= b <= k + 1 && all_digits(
                        #[trigger] part.subrange(a, b),
                        10,
                    ) implies number_value(part.subrange(a, b), 10) <= MAX_WIDTH by {
                    if b == k + 1 && a < b {
                        assert(part.subrange(a, b)[k - a] == part[k]);
                    }
                }
            },
        }
        i += 1;
    }
    true
}

/// Tells whether a template can be handed to the formatter.
pub fn is_well_closed(template: &str) -> (closed: bool)
    ensures
        closed == well_closed(template@),
{
    let chars = chars_of(template);
    let len: usize = chars.len();
    let ghost s = template@;
    let mut i: usize = 0;
    assert(s.skip(0) =~= s);
    while i < len
        invariant
            i <= len,
            len == chars.len(),
            chars@ == s,
            s == template@,
            well_closed(s) == well_closed(s.skip(i as int)),
        decreases len - i,
    {
        let ghost rest = s.skip(i as int);
        let c: char = chars[i];
        assert(rest[0] == c);
        if i + 1 < len && (c == '{' || c == '}') && chars[i + 1] == c {
            assert(rest[1] == c);
            assert(rest.skip(2) =~= s.skip(i + 2));
            i += 2;
        } else if c == '{' {
            assert(!starts_with_pair(rest)) by {
                if rest.len() >= 2 {
                    assert(rest[1] == chars[i + 1]);
                }
            }
            let end: usize = find_char(&chars, i, len, '}');
            assert(s.subrange(i as int, len as int) =~= rest);
            if end == len {
                return false;
            }
            proof {
                lemma_place_of(rest, '}');
            }
            let colon: usize = find_char(&chars, i + 1, end, ':');
            let ghost placeholder = rest.subrange(1, end - i);
            assert(s.subrange(i + 1, end as int) =~= placeholder);
            assert(s.subrange(colon as int, end as int) =~= layout_part(placeholder));
            if !has_small_numbers(&chars, colon, end) {
                return false;
            }
            assert(rest.skip(end - i + 1) =~= s.skip(end + 1));
            i = end + 1;
        } else {
            assert(!starts_with_pair(rest)) by {
                if rest.len() >= 2 {
                    assert(rest[1] == chars[i + 1]);
                }
            }
            assert(rest.skip(1) =~= s.skip(i + 1));
            i += 1;
        }
    }
    assert(s.skip(i as int) =~= Seq::<char>::empty());
    true
}

/// The first `n` names, each with the value at its place.
pub open spec fn bound(
    names: Seq<Seq<char>>,
    values: Seq<Seq<char>>,
    n: int,
) -> Map<Seq<char>, Seq<char>>
    decreases n,
{
    if n <= 0 {
        Map::empty()
    } else {
        bound(names, values, n - 1).insert(names[n - 1], values[n - 1])
    }
}

/// The names, each with the value at its place, as far as there are both.
pub open spec fn bindings(
    names: Seq<Seq<char>>,
    values: Seq<Seq<char>>,
) -> Map<Seq<char>, Seq<char>> {
    bound(
        names,
        values,
        if names.len() <= values.len() {
            names.len() as int
        } else {
            values.len() as int
        },
    )
}

/// Puts the values into a command in the place of its arguments.
pub fn expand(command: &str, arguments: &ArgumentsMap, values: &Vec<String>) -> (text: Option<
    String,
>)
    requires
        well_closed(command@),
    ensures
        text_of(text) == interpolated(
            command@,
            bindings(argument_names(arguments), texts(values@)),
        ),
        all_plain(command@) ==> text_of(text) == filled(
            command@,
            bindings(argument_names(arguments), texts(values@)),
        ),
{
    let ghost names = argument_names(arguments);
    let mut pairs: Vec<(String, String)> = Vec::new();
    let count: usize = name_count(arguments);
    let mut i: usize = 0;
    while i < count && i < values.len()
        invariant
            count == names.len(),
            names == argument_names(arguments),
            i <= count,
            i <= values.len(),
            pairs.len() == i,
            values_by_name(pairs@) == bound(names, texts(values@), i as int),
        decreases count - i,
    {
        let ghost before = pairs@;
        match name_at(arguments, i) {
            Some(name) => {
                pairs.push((name.clone(), values[i].clone()));
            },
            None => {
                assert(false);
            },
        }
        assert(pairs@.drop_last() =~= before);
        i += 1;
    }
    interpolate(command, &pairs)
}

/// A template of plain placeholders is closed.
pub proof fn lemma_plain_is_closed(s: Seq<char>)
    requires
        all_plain(s),
    ensures
        well_closed(s),
    decreases s.len(),
{
    if s.len() > 0 {
        if starts_with_pair(s) {
            lemma_plain_is_closed(s.skip(2));
        } else if s[0] == '{' {
            let end = place_of(s, '}');
            lemma_place_of(s, '}');
            lemma_plain_is_closed(s.skip(end + 1));
            let placeholder = s.subrange(1, end);
            lemma_place_of(placeholder, ':');
            if place_of(placeholder, ':') < placeholder.len() {
                assert(is_name_char(s[1 + place_of(placeholder, ':')]));
            }
            let layout = layout_part(placeholder);
            assert(layout =~= Seq::<char>::empty());
            assert forall|i: int, j: int|
                0 <= i <= j <= layout.len() && all_digits(
                    #[trigger] layout.subrange(i, j),
                    10,
                ) implies number_value(layout.subrange(i, j), 10) <= MAX_WIDTH by {
                assert(layout.subrange(i, j) =~= Seq::<char>::empty());
            }
        } else {
            lemma_plain_is_closed(s.skip(1));
        }
    }
}

/// The names of a later part of a command are names of the command.
proof fn lemma_names_of_suffix(s: Seq<char>, from: int, name: Seq<char>)
    requires
        0 <= from <= s.len(),
        placeholder_names(s.skip(from)).contains(name),
    ensures
        placeholder_names(s).contains(name),
    decreases from,
{
    if from == 0 {
        assert(s.skip(0) =~= s);
    } else {
        let tail = s.drop_first();
        assert(tail.skip(from - 1) =~= s.skip(from));
        lemma_names_of_suffix(tail, from - 1, name);
        let i = choose|i: int|
            0 <= i < placeholder_names(tail).len() && placeholder_names(tail)[i] == name;
        if exists|j: int| encloses(s, j) {
            assert(placeholder_names(s)[i + 1] == name);
        } else {
            assert(placeholder_names(s)[i] == name);
        }
    }
}

/// A run of name characters that ends at a character of another kind is the leading name.
proof fn lemma_leading_name(s: Seq<char>, n: int)
    requires
        0 <= n < s.len(),
        forall|i: int| 0 <= i < n ==> is_name_char(#[trigger] s[i]),
        !is_name_char(s[n]),
    ensures
        leading_name(s) == s.take(n),
    decreases n,
{
    if n == 0 {
        assert(s.take(0) =~= Seq::<char>::empty());
    } else {
        let tail = s.drop_first();
        assert forall|i: int| 0 <= i < n - 1 implies is_name_char(#[trigger] tail[i]) by {
            assert(tail[i] == s[i + 1]);
        }
        assert(is_name_char(s[0]));
        lemma_leading_name(tail, n - 1);
        assert(seq![s[0]] + tail.take(n - 1) =~= s.take(n));
    }
}

/// Where every name of a plain command has a value, the command can be filled in.
proof fn lemma_plain_fills(s: Seq<char>, values: Map<Seq<char>, Seq<char>>)
    requires
        all_plain(s),
        forall|name: Seq<char>|
            #[trigger] placeholder_names(s).contains(name) ==> values.contains_key(name),
    ensures
        filled(s, values) is Some,
    decreases s.len(),
{
    if s.len() > 0 {
        let step: int = if starts_with_pair(s) {
            2
        } else if s[0] == '{' {
            place_of(s, '}') + 1
        } else {
            1
        };
        lemma_place_of(s, '}');
        assert forall|name: Seq<char>| #[trigger]
            placeholder_names(s.skip(step)).contains(name) implies values.contains_key(name) by {
            lemma_names_of_suffix(s, step, name);
        }
        lemma_plain_fills(s.skip(step), values);
        if !starts_with_pair(s) && s[0] == '{' {
            let end = place_of(s, '}');
            let tail = s.drop_first();
            assert forall|k: int| 0 < k < end implies !is_brace(#[trigger] s[k]) by {
                assert(is_name_char(s[k]));
            }
            assert(encloses(s, end));
            assert forall|i: int| 0 <= i < end - 1 implies is_name_char(#[trigger] tail[i]) by {
                assert(is_name_char(s[i + 1]));
            }
            assert(tail[end - 1] == '}');
            lemma_leading_name(tail, end - 1);
            assert(tail.take(end - 1) =~= s.subrange(1, end));
            assert(placeholder_names(s)[0] == s.subrange(1, end));
            assert(placeholder_names(s).contains(s.subrange(1, end)));
        }
    }
}

/// Each of the first `n` names has a value.
proof fn lemma_bound_names(names: Seq<Seq<char>>, values: Seq<Seq<char>>, n: int)
    requires
        0 <= n <= names.len(),
        n <= values.len(),
    ensures
        forall|i: int| 0 <= i < n ==> bound(names, values, n).contains_key(#[trigger] names[i]),
        names.no_duplicates() ==> forall|i: int|
            0 <= i < n ==> bound(names, values, n)[#[trigger] names[i]] == values[i],
    decreases n,
{
    if n > 0 {
        lemma_bound_names(names, values, n - 1);
    }
}

/// A command whose placeholders are plain names can be filled in as soon as there are as many
/// values as it has arguments, and each argument then stands for the value at its place.
pub proof fn law_plain_commands_expand(command: Seq<char>, values: Seq<Seq<char>>)
    requires
        all_plain(command),
        arguments_of(command).len() <= values.len(),
    ensures
        well_closed(command),
        filled(command, bindings(arguments_of(command), values)) is Some,
        forall|i: int|
            0 <= i < arguments_of(command).len() ==> bindings(arguments_of(command), values)[
            #[trigger] arguments_of(command)[i]] == values[i],
{
    let names = arguments_of(command);
    lemma_plain_is_closed(command);
    lemma_first_occurrences(placeholder_names(command));
    lemma_bound_names(names, values, names.len() as int);
    assert forall|name: Seq<char>| #[trigger]
        placeholder_names(command).contains(name) implies bindings(names, values).contains_key(
        name,
    ) by {
        assert(names.contains(name));
        let i = choose|i: int| 0 <= i < names.len() && names[i] == name;
        assert(bindings(names, values).contains_key(names[i]));
    }
    lemma_plain_fills(command, bindings(names, values));
}

/// A command without braces has no arguments and is filled in as it stands.
pub proof fn law_commands_without_braces(command: Seq<char>, values: Map<Seq<char>, Seq<char>>)
    requires
        forall|i: int| 0 <= i < command.len() ==> !is_brace(#[trigger] command[i]),
    ensures
        arguments_of(command) == Seq::<Seq<char>>::empty(),
        all_plain(command),
        filled(command, values) == Some(command),
    decreases command.len(),
{
    if command.len() > 0 {
        let tail = command.drop_first();
        assert(tail =~= command.skip(1));
        assert forall|i: int| 0 <= i < tail.len() implies !is_brace(#[trigger] tail[i]) by {
            assert(tail[i] == command[i + 1]);
        }
        assert(!is_brace(command[0]));
        law_commands_without_braces(tail, values);
        assert(placeholder_names(tail).len() == 0) by {
            if placeholder_names(tail).len() > 0 {
                lemma_first_occurrences(placeholder_names(tail));
                assert(placeholder_names(tail).contains(placeholder_names(tail)[0]));
                assert(first_occurrences(placeholder_names(tail)).contains(
                    placeholder_names(tail)[0],
                ));
            }
        }
        assert(seq![command[0]] + tail =~= command);
    }
}

/// A command has arguments exactly where an opening brace in it is followed by a closing one with
/// no brace in between.
pub proof fn law_arguments_come_from_placeholders(command: Seq<char>)
    ensures
        arguments_of(command).len() > 0 <==> exists|i: int, j: int|
            0 <= i < j < command.len() && #[trigger] command[i] == '{' && #[trigger] command[j]
                == '}' && forall|k: int|
                i < k < j ==> (#[trigger] command[k]) != '{' && command[k] != '}',
{
    lemma_placeholder_is_found(command);
    let names = placeholder_names(command);
    lemma_first_occurrences(names);
    if names.len() > 0 {
        assert(names.contains(names[0]));
        assert(arguments_of(command).contains(names[0]));
    }
    if arguments_of(command).len() > 0 {
        assert(arguments_of(command).contains(arguments_of(command)[0]));
    }
}

/// There is a name in a placeholder exactly where there is a placeholder.
proof fn lemma_placeholder_is_found(s: Seq<char>)
    ensures
        placeholder_names(s).len() > 0 <==> exists|i: int, j: int|
            0 <= i < j < s.len() && #[trigger] s[i] == '{' && #[trigger] s[j] == '}' && forall|
                k: int,
            |
                i < k < j ==> (#[trigger] s[k]) != '{' && s[k] != '}',
    decreases s.len(),
{
    if s.len() > 0 {
        let tail = s.drop_first();
        lemma_placeholder_is_found(tail);
        if exists|j: int| encloses(s, j) {
            let j = choose|j: int| encloses(s, j);
            assert(s[0] == '{' && s[j] == '}');
            assert forall|k: int| 0 < k < j implies (#[trigger] s[k]) != '{' && s[k] != '}' by {
                assert(!is_brace(s[k]));
            }
        } else {
            if placeholder_names(tail).len() > 0 {
                let (i, j) = choose|i: int, j: int|
                    0 <= i < j < tail.len() && #[trigger] tail[i] == '{' && #[trigger] tail[j]
                        == '}' && forall|k: int|
                        i < k < j ==> (#[trigger] tail[k]) != '{' && tail[k] != '}';
                assert(s[i + 1] == '{' && s[j + 1] == '}');
                assert forall|k: int| i + 1 < k < j + 1 implies (#[trigger] s[k]) != '{' && s[k]
                    != '}' by {
                    assert(tail[k - 1] == s[k]);
                }
            }
            if exists|i: int, j: int|
                0 <= i < j < s.len() && #[trigger] s[i] == '{' && #[trigger] s[j] == '}' && forall|
                    k: int,
                |
                    i < k < j ==> (#[trigger] s[k]) != '{' && s[k] != '}' {
                let (i, j) = choose|i: int, j: int|
                    0 <= i < j < s.len() && #[trigger] s[i] == '{' && #[trigger] s[j] == '}'
                        && forall|k: int| i < k < j ==> (#[trigger] s[k]) != '{' && s[k] != '}';
                if i == 0 {
                    assert(encloses(s, j));
                } else {
                    assert(tail[i - 1] == '{' && tail[j - 1] == '}');
                    assert forall|k: int| i - 1 < k < j - 1 implies (#[trigger] tail[k]) != '{'
                        && tail[k] != '}' by {
                        assert(tail[k] == s[k + 1]);
                    }
                }
            }
        }
    }
}

/// A leading name is made of name characters.
proof fn lemma_leading_name_chars(s: Seq<char>)
    ensures
        forall|i: int| 0 <= i < leading_name(s).len() ==> is_name_char(#[trigger] leading_name(s)[i]),
    decreases s.len(),
{
    if s.len() > 0 && is_name_char(s[0]) {
        lemma_leading_name_chars(s.drop_first());
        assert forall|i: int| 0 <= i < leading_name(s).len() implies is_name_char(
            #[trigger] leading_name(s)[i],
        ) by {
            if i > 0 {
                assert(leading_name(s)[i] == leading_name(s.drop_first())[i - 1]);
            }
        }
    }
}

/// Every name in a placeholder is made of name characters.
proof fn lemma_placeholder_name_chars(s: Seq<char>, i: int)
    requires
        0 <= i < placeholder_names(s).len(),
    ensures
        forall|k: int|
            0 <= k < placeholder_names(s)[i].len() ==> is_name_char(
                #[trigger] placeholder_names(s)[i][k],
            ),
    decreases s.len(),
{
    if s.len() > 0 {
        if exists|j: int| encloses(s, j) {
            if i == 0 {
                lemma_leading_name_chars(s.drop_first());
                assert(placeholder_names(s)[0] == leading_name(s.drop_first()));
            } else {
                lemma_placeholder_name_chars(s.drop_first(), i - 1);
                assert(placeholder_names(s)[i] == placeholder_names(s.drop_first())[i - 1]);
            }
        } else {
            lemma_placeholder_name_chars(s.drop_first(), i);
            assert(placeholder_names(s) == placeholder_names(s.drop_first()));
        }
    }
}

/// No argument occurs twice, and the name of each is made of name characters alone.
pub proof fn law_arguments_are_distinct_names(command: Seq<char>)
    ensures
        arguments_of(command).no_duplicates(),
        forall|i: int, k: int|
            0 <= i < arguments_of(command).len() && 0 <= k < arguments_of(command)[i].len()
                ==> is_name_char(#[trigger] arguments_of(command)[i][k]),
{
    let names = placeholder_names(command);
    lemma_first_occurrences(names);
    assert forall|i: int, k: int|
        0 <= i < arguments_of(command).len() && 0 <= k < arguments_of(command)[i].len() implies
        is_name_char(#[trigger] arguments_of(command)[i][k]) by {
        let name = arguments_of(command)[i];
        assert(arguments_of(command).contains(name));
        let n = choose|n: int| 0 <= n < names.len() && names[n] == name;
        lemma_placeholder_name_chars(command, n);
        assert(is_name_char(names[n][k]));
    }
}

/// A character below 128 may stand in a name exactly where it is a letter, a digit, an underscore,
/// a blank or a mark.
pub proof fn law_plain_letters_make_names(c: char)
    requires
        (c as u32) < 128,
    ensures
        is_name_char(c) <==> ('a' <= c <= 'z' || 'A' <= c <= 'Z' || '0' <= c <= '9' || c == '_' || c
            == ' ' || c == '#'),
{
}

/// Text without an opening brace calls for no arguments, whatever follows it.
proof fn lemma_names_after_text(before: Seq<char>, rest: Seq<char>)
    requires
        forall|i: int| 0 <= i < before.len() ==> #[trigger] before[i] != '{',
    ensures
        placeholder_names(before + rest) == placeholder_names(rest),
    decreases before.len(),
{
    if before.len() == 0 {
        assert(before + rest =~= rest);
    } else {
        let s = before + rest;
        let tail = before.drop_first();
        assert(s.drop_first() =~= tail + rest);
        assert(s[0] == before[0]);
        assert forall|i: int| 0 <= i < tail.len() implies #[trigger] tail[i] != '{' by {
            assert(tail[i] == before[i + 1]);
        }
        lemma_names_after_text(tail, rest);
    }
}

/// A placeholder calls for the argument that its name characters spell, up to the first character
/// of another kind; then come those of the text behind it. Text before it without an opening brace
/// calls for none.
pub proof fn law_a_placeholder_calls_for_its_name(
    before: Seq<char>,
    name: Seq<char>,
    layout: Seq<char>,
    rest: Seq<char>,
)
    requires
        forall|i: int| 0 <= i < before.len() ==> #[trigger] before[i] != '{',
        forall|i: int| 0 <= i < name.len() ==> is_name_char(#[trigger] name[i]),
        forall|i: int|
            0 <= i < layout.len() ==> (#[trigger] layout[i]) != '{' && layout[i] != '}',
        layout.len() > 0 ==> !is_name_char(layout[0]),
    ensures
        placeholder_names(before) == Seq::<Seq<char>>::empty(),
        placeholder_names(before + (seq!['{'] + (name + (layout + (seq!['}'] + rest)))))
            == seq![name] + placeholder_names(rest),
{
    let closed = layout + (seq!['}'] + rest);
    let inner = name + closed;
    let s = seq!['{'] + inner;
    let end: int = 1int + name.len() + layout.len();
    lemma_names_after_text(before, s);
    lemma_names_after_text(before, Seq::empty());
    assert(before + Seq::<char>::empty() =~= before);
    assert(s.drop_first() =~= inner);
    assert(s[end] == '}');
    assert forall|k: int| 0 < k < end implies !is_brace(#[trigger] s[k]) by {
        if k <= name.len() {
            assert(s[k] == name[k - 1]);
        } else {
            assert(s[k] == layout[k - 1 - name.len()]);
        }
    }
    assert(encloses(s, end));
    assert forall|i: int| 0 <= i < name.len() implies is_name_char(#[trigger] inner[i]) by {
        assert(inner[i] == name[i]);
    }
    assert(inner[name.len() as int] == closed[0]);
    lemma_leading_name(inner, name.len() as int);
    assert(inner.take(name.len() as int) =~= name);
    let passed = name + layout + seq!['}'];
    assert(inner =~= passed + rest);
    assert forall|i: int| 0 <= i < passed.len() implies #[trigger] passed[i] != '{' by {
        if i < name.len() {
            assert(passed[i] == name[i]);
        } else if i < name.len() + layout.len() {
            assert(passed[i] == layout[i - name.len()]);
        }
    }
    lemma_names_after_text(passed, rest);
}

/// Of names that occur again only the first is kept: one more name comes last exactly where it is
/// new.
pub proof fn law_a_name_is_asked_for_once(names: Seq<Seq<char>>, name: Seq<char>)
    ensures
        first_occurrences(Seq::<Seq<char>>::empty()).len() == 0,
        names.contains(name) ==> first_occurrences(names.push(name)) == first_occurrences(names),
        !names.contains(name) ==> first_occurrences(names.push(name)) == first_occurrences(
            names,
        ).push(name),
        first_occurrences(names).no_duplicates(),
        first_occurrences(names).contains(name) <==> names.contains(name),
{
    assert(names.push(name).drop_last() =~= names);
    lemma_first_occurrences(names);
}

/// Every name that has a value at its place stands for that value, and nothing else stands for one.
pub proof fn law_names_stand_for_their_values(
    names: Seq<Seq<char>>,
    values: Seq<Seq<char>>,
    name: Seq<char>,
)
    requires
        names.no_duplicates(),
    ensures
        forall|i: int|
            0 <= i < names.len() && i < values.len() ==> bindings(names, values).contains_key(
                #[trigger] names[i],
            ) && bindings(names, values)[names[i]] == values[i],
        bindings(names, values).contains_key(name) <==> exists|i: int|
            0 <= i < names.len() && i < values.len() && #[trigger] names[i] == name,
{
    let n: int = if names.len() <= values.len() {
        names.len() as int
    } else {
        values.len() as int
    };
    lemma_bound_names(names, values, n);
    lemma_bound_is_named(names, values, n, name);
}

/// What has a value is one of the first `n` names.
proof fn lemma_bound_is_named(
    names: Seq<Seq<char>>,
    values: Seq<Seq<char>>,
    n: int,
    name: Seq<char>,
)
    requires
        0 <= n <= names.len(),
    ensures
        bound(names, values, n).contains_key(name) ==> exists|i: int|
            0 <= i < n && #[trigger] names[i] == name,
    decreases n,
{
    if n > 0 {
        lemma_bound_is_named(names, values, n - 1, name);
        if bound(names, values, n).contains_key(name) && names[n - 1] != name {
            let i = choose|i: int| 0 <= i < n - 1 && #[trigger] names[i] == name;
            assert(names[i] == name);
        }
    }
}

/// Text without braces closes nothing and leaves nothing open.
proof fn lemma_closed_after_text(before: Seq<char>, rest: Seq<char>)
    requires
        forall|i: int| 0 <= i < before.len() ==> !is_brace(#[trigger] before[i]),
    ensures
        well_closed(before + rest) == well_closed(rest),
    decreases before.len(),
{
    if before.len() == 0 {
        assert(before + rest =~= rest);
    } else {
        let s = before + rest;
        let tail = before.drop_first();
        assert(s.skip(1) =~= tail + rest);
        assert(s[0] == before[0]);
        assert forall|i: int| 0 <= i < tail.len() implies !is_brace(#[trigger] tail[i]) by {
            assert(tail[i] == before[i + 1]);
        }
        lemma_closed_after_text(tail, rest);
    }
}

/// A brace that is opened and never closed cannot be filled in, and text without braces always can.
pub proof fn law_an_open_brace_is_noticed(before: Seq<char>, rest: Seq<char>)
    requires
        forall|i: int|
            0 <= i < before.len() ==> (#[trigger] before[i]) != '{' && before[i] != '}',
        forall|i: int| 0 <= i < rest.len() ==> #[trigger] rest[i] != '}',
        rest.len() > 0 ==> rest[0] != '{',
    ensures
        well_closed(before),
        !well_closed(before + (seq!['{'] + rest)),
{
    let s = seq!['{'] + rest;
    assert forall|i: int| 0 <= i < before.len() implies !is_brace(#[trigger] before[i]) by {}
    lemma_closed_after_text(before, s);
    lemma_closed_after_text(before, Seq::empty());
    assert(before + Seq::<char>::empty() =~= before);
    lemma_place_of(s, '}');
    if place_of(s, '}') < s.len() {
        assert(s[place_of(s, '}')] == '}');
        assert(s[place_of(s, '}')] == rest[place_of(s, '}') - 1]);
    }
    assert(!starts_with_pair(s)) by {
        if s.len() >= 2 {
            assert(s[1] == rest[0]);
        }
    }
}

/// A placeholder that is closed can be filled in as far as what follows it can: always where it
/// asks for no layout, and where it asks for a width, exactly for one of 65535 at most.
pub proof fn law_a_closed_placeholder_may_ask_for_a_width(
    before: Seq<char>,
    name: Seq<char>,
    width: Seq<char>,
    rest: Seq<char>,
)
    requires
        forall|i: int|
            0 <= i < before.len() ==> (#[trigger] before[i]) != '{' && before[i] != '}',
        forall|i: int| 0 <= i < name.len() ==> (#[trigger] name[i]) != '}' && name[i] != ':',
        name.len() > 0 ==> name[0] != '{',
        forall|i: int| 0 <= i < width.len() ==> '0' <= #[trigger] width[i] <= '9',
    ensures
        well_closed(before + (seq!['{'] + name + seq!['}'] + rest)) <==> well_closed(rest),
        well_closed(before + (seq!['{'] + (name + seq![':'] + width) + seq!['}'] + rest)) <==> (
        number_value(width, 10) <= 65535 && well_closed(rest)),
{
    assert forall|i: int| 0 <= i < before.len() implies !is_brace(#[trigger] before[i]) by {}
    let plain = seq!['{'] + name + seq!['}'] + rest;
    let inside = name + seq![':'] + width;
    let wide = seq!['{'] + inside + seq!['}'] + rest;
    lemma_closed_after_text(before, plain);
    lemma_closed_after_text(before, wide);
    assert forall|i: int| 0 <= i < inside.len() implies #[trigger] inside[i] != '}' by {
        if i < name.len() {
            assert(inside[i] == name[i]);
        } else if i > name.len() {
            assert(inside[i] == width[i - name.len() - 1]);
        }
    }
    lemma_closed_placeholder(name, rest);
    lemma_closed_placeholder(inside, rest);
    lemma_place_of(name, ':');
    if place_of(name, ':') < name.len() {
        assert(name[place_of(name, ':')] == ':');
    }
    assert(layout_part(name) =~= Seq::<char>::empty());
    assert(small_numbers(layout_part(name))) by {
        let layout = layout_part(name);
        assert forall|i: int, j: int|
            0 <= i <= j <= layout.len() && all_digits(
                #[trigger] layout.subrange(i, j),
                10,
            ) implies number_value(layout.subrange(i, j), 10) <= MAX_WIDTH by {
            assert(layout.subrange(i, j) =~= Seq::<char>::empty());
        }
    }
    lemma_place_of(inside, ':');
    assert(inside[name.len() as int] == ':');
    if place_of(inside, ':') < name.len() {
        assert(inside[place_of(inside, ':')] == name[place_of(inside, ':')]);
    }
    assert(place_of(inside, ':') == name.len());
    let layout = seq![':'] + width;
    assert(layout_part(inside) =~= layout);
    assert(layout.subrange(1, layout.len() as int) =~= width);
    assert(all_digits(width, 10)) by {
        assert forall|i: int| 0 <= i < width.len() implies digit_value(
            #[trigger] width[i],
            10,
        ) is Some by {}
    }
    if number_value(width, 10) <= 65535 {
        assert forall|i: int, j: int|
            0 <= i <= j <= layout.len() && all_digits(
                #[trigger] layout.subrange(i, j),
                10,
            ) implies number_value(layout.subrange(i, j), 10) <= MAX_WIDTH by {
            if i == j {
                assert(layout.subrange(i, j) =~= Seq::<char>::empty());
            } else if i == 0 {
                assert(layout.subrange(i, j)[0] == ':');
            } else {
                lemma_suffix_is_no_larger(layout, 1, i, j, 10);
                assert(layout.subrange(1, j) =~= width.take(j - 1));
                lemma_prefix_is_no_larger(width, j - 1, 10);
            }
        }
    }
}

/// A closed placeholder is judged by its layout, and then by what follows it.
proof fn lemma_closed_placeholder(inside: Seq<char>, rest: Seq<char>)
    requires
        forall|i: int| 0 <= i < inside.len() ==> #[trigger] inside[i] != '}',
        inside.len() > 0 ==> inside[0] != '{',
    ensures
        well_closed(seq!['{'] + inside + seq!['}'] + rest) <==> small_numbers(layout_part(inside))
            && well_closed(rest),
{
    let s = seq!['{'] + inside + seq!['}'] + rest;
    let end: int = 1int + inside.len();
    lemma_place_of(s, '}');
    assert(s[end] == '}');
    if place_of(s, '}') < end {
        let p = place_of(s, '}');
        assert(p > 0);
        assert(s[p] == inside[p - 1]);
    }
    assert(place_of(s, '}') == end);
    assert(s.subrange(1, end) =~= inside);
    assert(s.skip(end + 1) =~= rest);
    assert(!starts_with_pair(s)) by {
        if inside.len() > 0 {
            assert(s[1] == inside[0]);
        } else {
            assert(s[1] == '}');
        }
    }
}

/// Two equal braces stand for one and open nothing.
pub proof fn law_doubled_braces_are_text(rest: Seq<char>)
    ensures
        well_closed(seq!['{', '{'] + rest) <==> well_closed(rest),
        well_closed(seq!['}', '}'] + rest) <==> well_closed(rest),
{
    assert((seq!['{', '{'] + rest).skip(2) =~= rest);
    assert((seq!['}', '}'] + rest).skip(2) =~= rest);
}

} // verus!

//! Reading the listings of the audio server and choosing the next sink.

use vstd::prelude::*;
use vstd::relations::{sorted_by, total_ordering};
use vstd::seq_lib::lemma_sorted_unique;
use vstd::string::StringExecFns;
use vstd::utf8::{decode_utf8, encode_utf8, valid_utf8};
use crate::text::{
    decimal,
    push_decimal,
    chars_of,
    contains,
    contains_text,
    first_token,
    first_word,
    lines,
    occurs_at,
    parse_number,
    parse_usize,
    remove_all,
    slice_of,
    split_lines,
    starts_with,
    string_of,
    views,
    without,
};

verus! {

/// The command that lists the streams that play into a sink.
pub const LIST_SINK_INPUTS: &'static str = "pactl list sink-inputs short";

/// The command that lists the sinks, one per line.
pub const LIST_SINKS_SHORT: &'static str = "pactl list sinks short";

/// The command that lists the sinks with all their properties.
pub const LIST_SINKS: &'static str = "pactl list sinks";

/// The command that tells, among other things, the default sink.
pub const SERVER_INFO: &'static str = "pactl info";

/// The number at the start of a line of a short listing: its first word,
/// read as a number.
pub open spec fn line_id(line: Seq<char>) -> Option<usize> {
    match first_word(line) {
        Some(word) => parse_number(word),
        None => None,
    }
}

/// The numbers at the start of all lines, or nothing where a line starts
/// with no number.
pub open spec fn ids_of(lines: Seq<Seq<char>>) -> Option<Seq<usize>>
    decreases lines.len(),
{
    if lines.len() == 0 {
        Some(Seq::empty())
    } else {
        match (ids_of(lines.drop_last()), line_id(lines.last())) {
            (Some(ids), Some(id)) => Some(ids.push(id)),
            _ => None,
        }
    }
}

/// Where a line of `lines` starts with no number, so does one of every
/// longer listing that begins with them.
proof fn lemma_ids_of_prefix(lines: Seq<Seq<char>>, k: int)
    requires
        0 <= k <= lines.len(),
        ids_of(lines.take(k)) is None,
    ensures
        ids_of(lines) is None,
    decreases lines.len() - k,
{
    if k < lines.len() {
        assert(lines.take(k + 1).drop_last() == lines.take(k));
        lemma_ids_of_prefix(lines, k + 1);
    } else {
        assert(lines.take(k) == lines);
    }
}

fn id_of_line(line: &Vec<char>) -> (r: Option<usize>)
    ensures
        r == line_id(line@),
{
    match first_token(line) {
        Some(word) => parse_usize(&word),
        None => None,
    }
}

/// Reads the numbers at the start of the lines of a short listing.
pub fn get_ids_from_list(list: &str) -> (r: Option<Vec<usize>>)
    ensures
        match r {
            Some(ids) => ids_of(lines(list@)) == Some(ids@),
            None => ids_of(lines(list@)) is None,
        },
{
    let text = chars_of(list);
    let all = split_lines(&text);
    let mut ids: Vec<usize> = Vec::new();
    let mut i: usize = 0;
    while i < all.len()
        invariant
            i <= all.len(),
            views(all@) == lines(list@),
            ids_of(views(all@).take(i as int)) == Some(ids@),
        decreases all.len() - i,
    {
        proof {
            let next = views(all@).take(i + 1);
            assert(next.drop_last() == views(all@).take(i as int));
            assert(next.last() == all@[i as int]@);
        }
        match id_of_line(&all[i]) {
            Some(id) => {
                ids.push(id);
            },
            None => {
                proof {
                    lemma_ids_of_prefix(views(all@), i + 1);
                }
                return None;
            },
        }
        i += 1;
    }
    assert(views(all@).take(i as int) == views(all@));
    Some(ids)
}

/// The numbers of a short listing: none where the listing could not be had
/// or a line of it starts with no number.
pub open spec fn listed_ids(listing: Option<Seq<char>>) -> Seq<usize> {
    match listing {
        Some(list) => match ids_of(lines(list)) {
            Some(ids) => ids,
            None => Seq::empty(),
        },
        None => Seq::empty(),
    }
}

/// The view of an optional string.
pub open spec fn text_of(s: Option<&str>) -> Option<Seq<char>> {
    match s {
        Some(text) => Some(text@),
        None => None,
    }
}

/// The streams that play into a sink, from what `LIST_SINK_INPUTS` printed.
pub fn get_sink_inputs(listing: Option<&str>) -> (r: Vec<usize>)
    ensures
        r@ == listed_ids(text_of(listing)),
{
    match listing {
        Some(list) => match get_ids_from_list(list) {
            Some(ids) => ids,
            None => Vec::new(),
        },
        None => Vec::new(),
    }
}

/// The sinks, from what `LIST_SINKS_SHORT` printed.
pub fn get_sinks(listing: Option<&str>) -> (r: Vec<usize>)
    ensures
        r@ == listed_ids(text_of(listing)),
{
    match listing {
        Some(list) => match get_ids_from_list(list) {
            Some(ids) => ids,
            None => Vec::new(),
        },
        None => Vec::new(),
    }
}

/// What stands before the name of the default sink.
pub const DEFAULT_SINK: &'static str = "Default Sink: ";

/// The name of the default sink: the first line that begins with
/// `DEFAULT_SINK`, without every occurrence of these words.
pub open spec fn default_sink_in(lines: Seq<Seq<char>>) -> Option<Seq<char>>
    decreases lines.len(),
{
    if lines.len() == 0 {
        None
    } else if occurs_at(lines[0], DEFAULT_SINK@, 0) {
        Some(without(lines[0], DEFAULT_SINK@))
    } else {
        default_sink_in(lines.drop_first())
    }
}

/// The name of the default sink, from what `SERVER_INFO` printed.
pub fn get_default_sink_name(info: Option<&str>) -> (r: Option<String>)
    ensures
        match text_of(info) {
            Some(text) => match r {
                Some(name) => default_sink_in(lines(text)) == Some(name@),
                None => default_sink_in(lines(text)) is None,
            },
            None => r is None,
        },
{
    let text = match info {
        Some(text) => chars_of(text),
        None => {
            return None;
        },
    };
    let all = split_lines(&text);
    let prefix = chars_of(DEFAULT_SINK);
    let mut i: usize = 0;
    assert(views(all@).skip(0) == views(all@));
    while i < all.len()
        invariant
            i <= all.len(),
            prefix@ == DEFAULT_SINK@,
            text_of(info) == Some(text@),
            views(all@) == lines(text@),
            default_sink_in(views(all@)) == default_sink_in(views(all@).skip(i as int)),
        decreases all.len() - i,
    {
        proof {
            let rest = views(all@).skip(i as int);
            assert(rest[0] == all@[i as int]@);
            assert(rest.drop_first() == views(all@).skip(i + 1));
        }
        if starts_with(&all[i], &prefix) {
            let name = remove_all(&all[i], &prefix);
            return Some(string_of(&name));
        }
        i += 1;
    }
    None
}

/// The number of the sink called `name`: that at the start of the first line
/// that holds the name.
pub open spec fn sink_id_in(lines: Seq<Seq<char>>, name: Seq<char>) -> Option<usize>
    decreases lines.len(),
{
    if lines.len() == 0 {
        None
    } else if contains_text(lines[0], name) {
        line_id(lines[0])
    } else {
        sink_id_in(lines.drop_first(), name)
    }
}

/// The number of the sink called `name`, from what `LIST_SINKS_SHORT`
/// printed.
pub fn get_sink_id_by_name(name: &str, list: Option<&str>) -> (r: Option<usize>)
    ensures
        r == match text_of(list) {
            Some(text) => sink_id_in(lines(text), name@),
            None => None,
        },
{
    let text = match list {
        Some(text) => chars_of(text),
        None => {
            return None;
        },
    };
    let all = split_lines(&text);
    let wanted = chars_of(name);
    let mut i: usize = 0;
    assert(views(all@).skip(0) == views(all@));
    while i < all.len()
        invariant
            i <= all.len(),
            wanted@ == name@,
            text_of(list) == Some(text@),
            views(all@) == lines(text@),
            sink_id_in(views(all@), name@) == sink_id_in(views(all@).skip(i as int), name@),
        decreases all.len() - i,
    {
        proof {
            let rest = views(all@).skip(i as int);
            assert(rest[0] == all@[i as int]@);
            assert(rest.drop_first() == views(all@).skip(i + 1));
        }
        if contains(&all[i], &wanted) {
            return id_of_line(&all[i]);
        }
        i += 1;
    }
    None
}

/// What stands before the description of a sink.
pub const DESCRIPTION: &'static str = "device.description = ";

/// The regular expression that a line with a description has to match.
pub const DESCRIPTION_PATTERN: &'static str = "^.*device.description = \"(.*)\".*$";

/// The lines from the first that begins with `header` on.
pub open spec fn from_header(lines: Seq<Seq<char>>, header: Seq<char>) -> Seq<Seq<char>>
    decreases lines.len(),
{
    if lines.len() == 0 || occurs_at(lines[0], header, 0) {
        lines
    } else {
        from_header(lines.drop_first(), header)
    }
}

/// The first line that holds `pat`.
pub open spec fn first_with(lines: Seq<Seq<char>>, pat: Seq<char>) -> Option<Seq<char>>
    decreases lines.len(),
{
    if lines.len() == 0 {
        None
    } else if contains_text(lines[0], pat) {
        Some(lines[0])
    } else {
        first_with(lines.drop_first(), pat)
    }
}

/// The words with which the entry of sink `sink_id` begins.
pub open spec fn sink_header(sink_id: usize) -> Seq<char> {
    "Sink #"@ + decimal(sink_id as nat)
}

/// The line that describes sink `sink_id`: the first that holds
/// `DESCRIPTION`, at or after the first line that begins with the header of
/// the sink.
pub open spec fn description_line(text: Seq<char>, sink_id: usize) -> Option<Seq<char>> {
    first_with(from_header(lines(text), sink_header(sink_id)), DESCRIPTION@)
}

/// Finds the line that describes sink `sink_id` in what `LIST_SINKS`
/// printed.
pub fn find_description(listing: &str, sink_id: usize) -> (r: Option<Vec<char>>)
    ensures
        match r {
            Some(line) => description_line(listing@, sink_id) == Some(line@),
            None => description_line(listing@, sink_id) is None,
        },
{
    let text = chars_of(listing);
    let all = split_lines(&text);
    let mut header_text = String::from_str("Sink #");
    push_decimal(&mut header_text, sink_id);
    let header = chars_of(header_text.as_str());
    let wanted = chars_of(DESCRIPTION);
    let ghost whole = views(all@);
    let mut i: usize = 0;
    assert(whole.skip(0) == whole);
    while i < all.len() && !starts_with(&all[i], &header)
        invariant
            i <= all.len(),
            whole == views(all@),
            header@ == sink_header(sink_id),
            from_header(whole, header@) == from_header(whole.skip(i as int), header@),
        decreases all.len() - i,
    {
        proof {
            let rest = whole.skip(i as int);
            assert(rest[0] == all@[i as int]@);
            assert(rest.drop_first() == whole.skip(i + 1));
        }
        i += 1;
    }
    proof {
        if i < all.len() {
            assert(whole.skip(i as int)[0] == all@[i as int]@);
        }
    }
    let ghost rest = whole.skip(i as int);
    assert(from_header(whole, header@) == rest);
    let mut j: usize = i;
    while j < all.len()
        invariant
            i <= j <= all.len(),
            whole == views(all@),
            whole == lines(listing@),
            from_header(whole, sink_header(sink_id)) == whole.skip(i as int),
            wanted@ == DESCRIPTION@,
            first_with(whole.skip(i as int), wanted@) == first_with(whole.skip(j as int), wanted@),
        decreases all.len() - j,
    {
        proof {
            let rest = whole.skip(j as int);
            assert(rest[0] == all@[j as int]@);
            assert(rest.drop_first() == whole.skip(j + 1));
        }
        if contains(&all[j], &wanted) {
            let line = slice_of(&all[j], 0, all[j].len());
            assert(line@ == all@[j as int]@);
            return Some(line);
        }
        j += 1;
    }
    None
}

/// What capture group 0 of the regular expression `pattern` holds at its
/// first match in `haystack`; nothing where `pattern` is no regular
/// expression or matches nowhere.
pub uninterp spec fn regex_whole_match(pattern: Seq<char>, haystack: Seq<u8>) -> Option<Seq<u8>>;

/// Compiles `pattern` with `regex::bytes::Regex::new`, searches `haystack`
/// with `Regex::captures` and copies what `Captures::get(0)` matched. The
/// result depends on the two arguments alone; nothing else is claimed of it.
#[verifier::external_body]
fn whole_match(pattern: &str, haystack: &[u8]) -> (r: Option<Vec<u8>>)
    ensures
        match r {
            Some(found) => regex_whole_match(pattern@, haystack@) == Some(found@),
            None => regex_whole_match(pattern@, haystack@) is None,
        },
{
    match regex::bytes::Regex::new(pattern) {
        Ok(re) => match re.captures(haystack) {
            Some(captures) => match captures.get(0) {
                Some(found) => Some(found.as_bytes().to_vec()),
                None => None,
            },
            None => None,
        },
        Err(_) => None,
    }
}

/// `String::from_utf8` of std gives the string that the bytes encode, and
/// an error exactly where they are no UTF-8.
#[verifier::external_body]
fn utf8_to_string(bytes: Vec<u8>) -> (r: Option<String>)
    ensures
        match r {
            Some(text) => valid_utf8(bytes@) && text@ == decode_utf8(bytes@),
            None => !valid_utf8(bytes@),
        },
{
    String::from_utf8(bytes).ok()
}

/// The text that the matched bytes encode, where there is a match and it is
/// UTF-8.
pub open spec fn decoded(found: Option<Seq<u8>>) -> Option<Seq<char>> {
    match found {
        Some(bytes) => if valid_utf8(bytes) {
            Some(decode_utf8(bytes))
        } else {
            None
        },
        None => None,
    }
}

/// The view of an optional owned string.
pub open spec fn name_of(s: Option<String>) -> Option<Seq<char>> {
    match s {
        Some(text) => Some(text@),
        None => None,
    }
}

/// The view of optional bytes.
pub open spec fn bytes_of(found: Option<Vec<u8>>) -> Option<Seq<u8>> {
    match found {
        Some(bytes) => Some(bytes@),
        None => None,
    }
}

/// Turns what the regular expression matched into the name of the sink.
pub fn sink_name_from_match(found: Option<Vec<u8>>) -> (r: Option<String>)
    ensures
        name_of(r) == decoded(bytes_of(found)),
{
    match found {
        Some(bytes) => utf8_to_string(bytes),
        None => None,
    }
}

/// The description of sink `sink_id`, from what `LIST_SINKS` printed: what
/// `DESCRIPTION_PATTERN` matches of the line that describes the sink.
pub fn get_sink_name(sink_id: usize, listing: Option<&str>) -> (r: Option<String>)
    ensures
        name_of(r) == match text_of(listing) {
            Some(text) => match description_line(text, sink_id) {
                Some(line) => decoded(regex_whole_match(DESCRIPTION_PATTERN@, encode_utf8(line))),
                None => None,
            },
            None => None,
        },
{
    let text = match listing {
        Some(text) => text,
        None => {
            return None;
        },
    };
    match find_description(text, sink_id) {
        Some(line) => {
            let line_text = string_of(&line);
            let found = whole_match(DESCRIPTION_PATTERN, line_text.as_str().as_bytes());
            sink_name_from_match(found)
        },
        None => None,
    }
}

/// The command that makes sink `sink_id` the default.
pub open spec fn default_sink_command(sink_id: usize) -> Seq<char> {
    "pactl set-default-sink "@ + decimal(sink_id as nat)
}

/// The command that makes sink `sink_id` the default. The streams are listed
/// and moved after it has run.
pub fn set_default_sink(sink_id: usize) -> (r: String)
    ensures
        r@ == default_sink_command(sink_id),
{
    let mut command = String::from_str("pactl set-default-sink ");
    push_decimal(&mut command, sink_id);
    command
}

/// The commands that move the streams in `sink_inputs` to sink `sink_id`,
/// one for each stream, in order.
pub open spec fn move_commands(sink_id: usize, sink_inputs: Seq<usize>) -> Seq<Seq<char>> {
    Seq::new(
        sink_inputs.len(),
        |i: int|
            "pactl move-sink-input "@ + decimal(sink_inputs[i] as nat) + " "@ + decimal(
                sink_id as nat,
            ),
    )
}

/// The views of the elements of `v`.
pub open spec fn texts(v: Seq<String>) -> Seq<Seq<char>> {
    Seq::new(v.len(), |i: int| v[i]@)
}

/// The commands that move the streams in `sink_inputs` to sink `sink_id`.
pub fn move_sink_inputs(sink_id: usize, sink_inputs: &Vec<usize>) -> (r: Vec<String>)
    ensures
        texts(r@) == move_commands(sink_id, sink_inputs@),
{
    let mut commands: Vec<String> = Vec::new();
    let mut i: usize = 0;
    while i < sink_inputs.len()
        invariant
            i <= sink_inputs.len(),
            commands@.len() == i,
            forall|k: int|
                0 <= k < i ==> (#[trigger] commands@[k])@ == move_commands(sink_id, sink_inputs@)[k],
        decreases sink_inputs.len() - i,
    {
        let mut command = String::from_str("pactl move-sink-input ");
        push_decimal(&mut command, sink_inputs[i]);
        command.append(" ");
        push_decimal(&mut command, sink_id);
        commands.push(command);
        i += 1;
    }
    assert(texts(commands@) =~= move_commands(sink_id, sink_inputs@));
    commands
}

/// The order of numbers.
pub open spec fn ascending() -> spec_fn(usize, usize) -> bool {
    |a: usize, b: usize| a <= b
}

/// `sort` of std slices puts the elements in ascending order and keeps each
/// as often as it was there.
#[verifier::external_body]
fn sort_ids(v: &mut Vec<usize>)
    ensures
        sorted_by(final(v)@, ascending()),
        final(v)@.to_multiset() == old(v)@.to_multiset(),
{
    v.sort();
}

/// The sinks that follow an occurrence of `current` among the first `upto`
/// of `order`, each taken for one occurrence; the first sink follows the
/// last.
pub open spec fn successors(order: Seq<usize>, current: usize, upto: int) -> Seq<usize>
    decreases upto,
{
    if upto <= 0 {
        Seq::empty()
    } else if order[upto - 1] == current {
        successors(order, current, upto - 1).push(
            order[if upto < order.len() {
                upto
            } else {
                0
            }],
        )
    } else {
        successors(order, current, upto - 1)
    }
}

/// The order in which the sinks are walked: ascending, or descending to go
/// left.
pub open spec fn walk_order(sinks: Seq<usize>, left: bool) -> Seq<usize> {
    if left {
        sinks.sort_by(ascending()).reverse()
    } else {
        sinks.sort_by(ascending())
    }
}

/// The sinks to make the default, one after the other, when the default is
/// `default_sink_id`.
pub open spec fn next_sinks(left: bool, default_sink_id: usize, sinks: Seq<usize>) -> Seq<usize> {
    successors(walk_order(sinks, left), default_sink_id, sinks.len() as int)
}

fn reversed(v: &Vec<usize>) -> (r: Vec<usize>)
    ensures
        r@ == v@.reverse(),
{
    let mut out: Vec<usize> = Vec::new();
    let mut i: usize = v.len();
    while i > 0
        invariant
            i <= v.len(),
            out@.len() == v.len() - i,
            forall|k: int| 0 <= k < out@.len() ==> out@[k] == v@[v.len() - 1 - k],
        decreases i,
    {
        i -= 1;
        out.push(v[i]);
    }
    out
}

/// Gives the sinks to make the default when the default is
/// `default_sink_id`, in order: nothing where it is not among `sinks`.
pub fn cycle_sinks(left: bool, default_sink_id: usize, sinks: Vec<usize>) -> (r: Vec<usize>)
    ensures
        r@ == next_sinks(left, default_sink_id, sinks@),
{
    let mut sorted = sinks;
    sort_ids(&mut sorted);
    proof {
        let wanted = sinks@.sort_by(ascending());
        assert(total_ordering(ascending()));
        sinks@.lemma_sort_by_ensures(ascending());
        lemma_sorted_unique(sorted@, wanted, ascending());
        sorted@.to_multiset_ensures();
        sinks@.to_multiset_ensures();
    }
    let order = if left {
        reversed(&sorted)
    } else {
        sorted
    };
    assert(order@ == walk_order(sinks@, left));
    assert(order@.len() == sinks@.len());

    let mut out: Vec<usize> = Vec::new();
    let mut next_will_be_the_default = false;
    let mut i: usize = 0;
    while i < order.len()
        invariant
            i <= order.len(),
            next_will_be_the_default == (i > 0 && order@[i - 1] == default_sink_id),
            successors(order@, default_sink_id, i as int) == if next_will_be_the_default {
                out@.push(order@[if i < order@.len() {
                    i as int
                } else {
                    0
                }])
            } else {
                out@
            },
        decreases order.len() - i,
    {
        let sink = order[i];
        if next_will_be_the_default {
            next_will_be_the_default = false;
            out.push(sink);
        }
        if sink == default_sink_id {
            next_will_be_the_default = true
        }
        i += 1;
    }
    if next_will_be_the_default {
        out.push(order[0]);
    }
    out
}

/// switches to the next audio device
///
/// Gives the sinks to make the default, in order, where the default sink is
/// known; where it is not, nothing is to change.
pub fn cycle_from(left: bool, default_sink_id: Option<usize>, sinks: Vec<usize>) -> (r: Vec<usize>)
    ensures
        r@ == match default_sink_id {
            Some(id) => next_sinks(left, id, sinks@),
            None => Seq::empty(),
        },
{
    match default_sink_id {
        Some(id) => cycle_sinks(left, id, sinks),
        None => Vec::new(),
    }
}

} // verus!

//! Reading the text that files and system tools hand over.
//!
//! Splitting and trimming are the standard library's; what is kept of the
//! pieces is decided here.

use vstd::prelude::*;
use vstd::string::*;

verus! {

/// The lines that `str::lines` finds in `text`, without their endings.
pub uninterp spec fn text_lines(text: Seq<char>) -> Seq<Seq<char>>;

/// What `str::trim` leaves of `text`: the text without the white space at
/// its ends.
pub uninterp spec fn trimmed_text(text: Seq<char>) -> Seq<char>;

/// The words that `str::split_whitespace` finds in `text`.
pub uninterp spec fn text_words(text: Seq<char>) -> Seq<Seq<char>>;

/// The pieces that `str::split` cuts `text` into at each `separator`.
pub uninterp spec fn split_text(text: Seq<char>, separator: Seq<char>) -> Seq<Seq<char>>;

/// The characters of each text of a list.
pub open spec fn text_views(texts: Seq<String>) -> Seq<Seq<char>> {
    Seq::new(texts.len(), |i: int| texts[i]@)
}

/// Whether `needle` stands somewhere in `hay`.
pub open spec fn has_text(hay: Seq<char>, needle: Seq<char>) -> bool {
    exists|at: int|
        0 <= at && at + needle.len() <= hay.len() && #[trigger] hay.subrange(
            at,
            at + needle.len(),
        ) == needle
}

/// Splits `text` into lines with `str::lines`.
///
/// Trusted: the result is the named one, a function of the text alone.
#[verifier::external_body]
pub(crate) fn lines_of(text: &str) -> (lines: Vec<String>)
    ensures
        text_views(lines@) == text_lines(text@),
{
    text.lines().map(|line| line.to_string()).collect()
}

/// Trims `text` with `str::trim`.
///
/// Trusted: the result is the named one, a function of the text alone.
#[verifier::external_body]
pub(crate) fn trim_of(text: &str) -> (rest: String)
    ensures
        rest@ == trimmed_text(text@),
{
    text.trim().to_string()
}

/// Splits `text` into words with `str::split_whitespace`.
///
/// Trusted: the result is the named one, a function of the text alone.
#[verifier::external_body]
pub(crate) fn words_of(text: &str) -> (words: Vec<String>)
    ensures
        text_views(words@) == text_words(text@),
{
    text.split_whitespace().map(|word| word.to_string()).collect()
}

/// Splits `text` at each `separator` with `str::split`.
///
/// Trusted: the result is the named one, a function of the two texts
/// alone.
#[verifier::external_body]
pub(crate) fn split_of(text: &str, separator: &str) -> (pieces: Vec<String>)
    ensures
        text_views(pieces@) == split_text(text@, separator@),
{
    text.split(separator).map(|piece| piece.to_string()).collect()
}

/// Looks for `needle` in `hay` with `str::contains`.
///
/// Trusted: the result says whether some stretch of `hay` reads as
/// `needle`.
#[verifier::external_body]
pub(crate) fn contains_text(hay: &str, needle: &str) -> (found: bool)
    ensures
        found == has_text(hay@, needle@),
{
    hay.contains(needle)
}

/// Whether `c` stands in `text`.
pub fn has_char(text: &str, c: char) -> (found: bool)
    ensures
        found == text@.contains(c),
{
    let len = text.unicode_len();
    let mut i: usize = 0;
    while i < len
        invariant
            len == text@.len(),
            i <= len,
            forall|k: int| 0 <= k < i ==> text@[k] != c,
        decreases len - i,
    {
        if text.get_char(i) == c {
            return true;
        }
        i = i + 1;
    }
    false
}

/// How much of `text` is left when every `c` at its end is dropped.
pub open spec fn trimmed_end(text: Seq<char>, c: char) -> int
    decreases text.len(),
{
    if text.len() > 0 && text.last() == c {
        trimmed_end(text.drop_last(), c)
    } else {
        text.len() as int
    }
}

/// `text` without the run of `c` at its end.
pub open spec fn without_trailing(text: Seq<char>, c: char) -> Seq<char> {
    text.subrange(0, trimmed_end(text, c))
}

/// Where the run of `c` at the end of `text` begins.
proof fn lemma_trimmed_end(text: Seq<char>, c: char, end: int)
    requires
        0 <= end <= text.len(),
        forall|k: int| end <= k < text.len() ==> text[k] == c,
    ensures
        0 <= trimmed_end(text, c) <= text.len(),
        trimmed_end(text, c) == trimmed_end(text.subrange(0, end), c),
    decreases text.len() - end,
{
    if end < text.len() {
        assert(text.last() == c);
        lemma_trimmed_end(text.drop_last(), c, end);
        assert(text.drop_last().subrange(0, end) =~= text.subrange(0, end));
    } else {
        assert(text.subrange(0, end) =~= text);
        lemma_trimmed_end_bounds(text, c);
    }
}

/// What is left of a text is no longer than the text.
proof fn lemma_trimmed_end_bounds(text: Seq<char>, c: char)
    ensures
        0 <= trimmed_end(text, c) <= text.len(),
    decreases text.len(),
{
    if text.len() > 0 && text.last() == c {
        lemma_trimmed_end_bounds(text.drop_last(), c);
    }
}

/// Drops every `c` at the end of `text`.
pub fn trim_end(text: &str, c: char) -> (rest: String)
    ensures
        rest@ == without_trailing(text@, c),
{
    let len = text.unicode_len();
    let mut end: usize = len;
    while end > 0 && text.get_char(end - 1) == c
        invariant
            len == text@.len(),
            end <= len,
            forall|k: int| end <= k < len ==> text@[k] == c,
        decreases end,
    {
        end = end - 1;
    }
    proof {
        lemma_trimmed_end(text@, c, end as int);
        let head = text@.subrange(0, end as int);
        if end > 0 {
            assert(head.last() == text@[end - 1]);
        }
    }
    String::from_str(text.substring_char(0, end))
}

/// Whether `text` reads as `literal`.
pub fn reads_as(text: &str, literal: &str) -> (same: bool)
    ensures
        same == (text@ == literal@),
{
    let a = String::from_str(text);
    let b = String::from_str(literal);
    a == b
}

/// Each of `lines`, trimmed.
pub open spec fn trimmed_lines(lines: Seq<Seq<char>>) -> Seq<Seq<char>> {
    Seq::new(lines.len(), |i: int| trimmed_text(lines[i]))
}

/// Whether a trimmed line of a host file names a host: it is not empty
/// and is no comment, which begins with `#`.
pub open spec fn names_host(line: Seq<char>) -> bool {
    line.len() > 0 && line[0] != '#'
}

/// The lines of `lines` that name a host, in order.
pub open spec fn named_hosts(lines: Seq<Seq<char>>) -> Seq<Seq<char>>
    decreases lines.len(),
{
    if lines.len() == 0 {
        Seq::empty()
    } else if names_host(lines.last()) {
        named_hosts(lines.drop_last()).push(lines.last())
    } else {
        named_hosts(lines.drop_last())
    }
}

/// Trims each of `lines`.
pub fn trim_lines(lines: &Vec<String>) -> (trimmed: Vec<String>)
    ensures
        text_views(trimmed@) == trimmed_lines(text_views(lines@)),
{
    let mut trimmed: Vec<String> = Vec::new();
    let mut i: usize = 0;
    while i < lines.len()
        invariant
            i <= lines.len(),
            trimmed@.len() == i,
            forall|k: int| 0 <= k < i ==> trimmed@[k]@ == trimmed_text(lines@[k]@),
        decreases lines.len() - i,
    {
        trimmed.push(trim_of(lines[i].as_str()));
        i = i + 1;
    }
    assert(text_views(trimmed@) =~= trimmed_lines(text_views(lines@)));
    trimmed
}

/// Picks the hosts out of the trimmed lines of a host file: empty lines
/// and comments are left out, every other line is kept as it is.
pub fn hosts_in_lines(lines: &Vec<String>) -> (hosts: Vec<String>)
    ensures
        text_views(hosts@) == named_hosts(text_views(lines@)),
{
    let mut hosts: Vec<String> = Vec::new();
    let mut i: usize = 0;
    assert(text_views(lines@).take(0) =~= Seq::<Seq<char>>::empty());
    assert(text_views(hosts@) =~= Seq::<Seq<char>>::empty());
    while i < lines.len()
        invariant
            i <= lines.len(),
            text_views(hosts@) == named_hosts(text_views(lines@).take(i as int)),
        decreases lines.len() - i,
    {
        let ghost so_far = text_views(hosts@);
        assert(text_views(lines@).take(i + 1).drop_last() =~= text_views(lines@).take(i as int));
        assert(text_views(lines@).take(i + 1).last() == lines@[i as int]@);
        let line = lines[i].as_str();
        if line.unicode_len() > 0 && line.get_char(0) != '#' {
            hosts.push(lines[i].clone());
            assert(text_views(hosts@) =~= so_far.push(lines@[i as int]@));
        }
        i = i + 1;
    }
    assert(text_views(lines@).take(lines@.len() as int) =~= text_views(lines@));
    hosts
}

/// Reads the hosts out of the text of a host file: one host on a line,
/// trimmed, with blank lines and `#` comments skipped.
pub fn parse_hosts(content: &str) -> (hosts: Vec<String>)
    ensures
        text_views(hosts@) == named_hosts(trimmed_lines(text_lines(content@))),
{
    let lines = lines_of(content);
    let trimmed = trim_lines(&lines);
    hosts_in_lines(&trimmed)
}

/// Whether `word` looks like a hardware address: it holds a colon and
/// takes at least seventeen octets.
pub open spec fn looks_like_mac(word: Seq<char>) -> bool {
    word.contains(':') && vstd::utf8::encode_utf8(word).len() >= 17
}

/// Whether `words`, the words of a line of the neighbour table, tell the
/// hardware address: the third word is there and looks like one.
pub open spec fn tells_mac(words: Seq<Seq<char>>) -> bool {
    words.len() >= 3 && looks_like_mac(words[2])
}

/// Whether `line` of the neighbour table tells the hardware address of
/// the address that reads `ip`: it mentions the address, and its words
/// tell a hardware address.
pub open spec fn line_tells_mac(line: Seq<char>, ip: Seq<char>) -> bool {
    has_text(line, ip) && tells_mac(text_words(line))
}

/// The hardware address that the words of a line of the neighbour table
/// tell, where they tell one.
pub fn mac_in_words(words: &Vec<String>) -> (mac: Option<String>)
    ensures
        mac is Some <==> tells_mac(text_views(words@)),
        mac is Some ==> mac->Some_0@ == text_views(words@)[2],
{
    if words.len() >= 3 {
        assert(text_views(words@)[2] == words@[2]@);
        let word = words[2].as_str();
        if has_char(word, ':') && word.as_bytes().len() >= 17 {
            return Some(words[2].clone());
        }
    }
    None
}

/// Finds the hardware address of `ip` in the output of the neighbour
/// table: the third word of the first line that tells it. There is none
/// exactly when no line does.
pub fn parse_arp_output(output: &str, ip: &str) -> (mac: Option<String>)
    ensures
        mac is Some ==> exists|i: int|
            0 <= i < text_lines(output@).len() && line_tells_mac(
                #[trigger] text_lines(output@)[i],
                ip@,
            ) && mac->Some_0@ == text_words(text_lines(output@)[i])[2] && forall|k: int|
                0 <= k < i ==> !line_tells_mac(#[trigger] text_lines(output@)[k], ip@),
        mac is None ==> forall|i: int|
            0 <= i < text_lines(output@).len() ==> !line_tells_mac(
                #[trigger] text_lines(output@)[i],
                ip@,
            ),
{
    let lines = lines_of(output);
    let mut i: usize = 0;
    while i < lines.len()
        invariant
            i <= lines.len(),
            text_views(lines@) == text_lines(output@),
            forall|k: int| 0 <= k < i ==> !line_tells_mac(#[trigger] text_lines(output@)[k], ip@),
        decreases lines.len() - i,
    {
        let line = lines[i].as_str();
        assert(text_views(lines@)[i as int] == lines@[i as int]@);
        if contains_text(line, ip) {
            let words = words_of(line);
            match mac_in_words(&words) {
                Some(mac) => {
                    return Some(mac);
                },
                None => {},
            }
        }
        i = i + 1;
    }
    None
}

/// The words that mark a line of the name lookup that holds the name.
pub open spec fn pointer_mark() -> Seq<char> {
    "domain name pointer"@
}

/// The host name that the pieces of a line, cut at the mark, hold: what
/// follows the first mark, trimmed, without the dots at its end.
pub open spec fn name_in_pieces(pieces: Seq<Seq<char>>) -> Option<Seq<char>> {
    if pieces.len() >= 2 {
        Some(without_trailing(trimmed_text(pieces[1]), '.'))
    } else {
        None
    }
}

/// The host name that the pieces of a line, cut at the mark, hold.
pub fn hostname_in_pieces(pieces: &Vec<String>) -> (name: Option<String>)
    ensures
        match name {
            Some(n) => Some(n@) == name_in_pieces(text_views(pieces@)),
            None => name_in_pieces(text_views(pieces@)) is None,
        },
{
    if pieces.len() >= 2 {
        assert(text_views(pieces@)[1] == pieces@[1]@);
        let inner = trim_of(pieces[1].as_str());
        Some(trim_end(inner.as_str(), '.'))
    } else {
        None
    }
}

/// Whether `line` of the name lookup holds a name: it holds the mark, and
/// something follows the mark.
pub open spec fn line_holds_name(line: Seq<char>) -> bool {
    has_text(line, pointer_mark()) && split_text(line, pointer_mark()).len() >= 2
}

/// Finds the host name in the output of the name lookup: what follows
/// the mark on the first line that holds a name. There is none exactly
/// when no line does.
pub fn parse_host_output(output: &str) -> (name: Option<String>)
    ensures
        name is Some ==> exists|i: int|
            0 <= i < text_lines(output@).len() && line_holds_name(
                #[trigger] text_lines(output@)[i],
            ) && Some(name->Some_0@) == name_in_pieces(
                split_text(text_lines(output@)[i], pointer_mark()),
            ) && forall|k: int| 0 <= k < i ==> !line_holds_name(#[trigger] text_lines(output@)[k]),
        name is None ==> forall|i: int|
            0 <= i < text_lines(output@).len() ==> !line_holds_name(
                #[trigger] text_lines(output@)[i],
            ),
{
    let lines = lines_of(output);
    let mut i: usize = 0;
    while i < lines.len()
        invariant
            i <= lines.len(),
            text_views(lines@) == text_lines(output@),
            forall|k: int| 0 <= k < i ==> !line_holds_name(#[trigger] text_lines(output@)[k]),
        decreases lines.len() - i,
    {
        let line = lines[i].as_str();
        assert(text_views(lines@)[i as int] == lines@[i as int]@);
        if contains_text(line, "domain name pointer") {
            let pieces = split_of(line, "domain name pointer");
            match hostname_in_pieces(&pieces) {
                Some(name) => {
                    return Some(name);
                },
                None => {},
            }
        }
        i = i + 1;
    }
    None
}

} // verus!

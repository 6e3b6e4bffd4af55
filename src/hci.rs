use vstd::prelude::*;
use vstd::string::*;
use crate::protocol::names_of;

verus! {

/// The arguments of the host tool call that upgrades the link parameters of
/// the connection `handle`: minimum interval 40, maximum 56, latency 0,
/// supervision timeout 200.
pub open spec fn lecup_spec(handle: Seq<char>) -> Seq<Seq<char>> {
    seq!["lecup"@, handle, "40"@, "56"@, "0"@, "200"@]
}

/// Builds the argument list of the link-parameter upgrade for `handle`.
pub fn lecup_args(handle: &String) -> (r: Vec<String>)
    ensures
        names_of(r@) == lecup_spec(handle@),
{
    let mut r: Vec<String> = Vec::new();
    r.push(String::from_str("lecup"));
    r.push(handle.clone());
    r.push(String::from_str("40"));
    r.push(String::from_str("56"));
    r.push(String::from_str("0"));
    r.push(String::from_str("200"));
    assert(names_of(r@) =~= lecup_spec(handle@));
    r
}

/// Whether two MAC addresses are the same six bytes.
pub fn same_mac(a: &[u8; 6], b: &[u8; 6]) -> (r: bool)
    ensures
        r == (a@ == b@),
{
    let mut i: usize = 0;
    while i < 6
        invariant
            i <= 6,
            forall|k: int| 0 <= k < i ==> a@[k] == b@[k],
        decreases 6 - i,
    {
        if a[i] != b[i] {
            return false;
        }
        i = i + 1;
    }
    assert(a@ =~= b@);
    true
}

/// Picks the connection handle of the device `mac` from the listed
/// connections: `entries[i]` is the (address, handle) text of one connection
/// and `parsed[i]` its address as bytes, `None` where it did not parse. The
/// first connection whose address is `mac` wins.
pub fn select_handle(entries: &Vec<(String, String)>, parsed: &Vec<Option<[u8; 6]>>, mac: &[u8; 6]) -> (r:
    Option<String>)
    requires
        entries@.len() == parsed@.len(),
    ensures
        match r {
            Some(h) => exists|i: int|
                0 <= i < entries@.len() && parsed@[i] is Some && parsed@[i]->Some_0@ == mac@
                    && entries@[i].1@ == h@ && forall|j: int|
                    0 <= j < i ==> !(parsed@[j] is Some && parsed@[j]->Some_0@ == mac@),
            None => forall|j: int|
                0 <= j < entries@.len() ==> !(parsed@[j] is Some && parsed@[j]->Some_0@ == mac@),
        },
{
    let mut i: usize = 0;
    while i < entries.len()
        invariant
            i <= entries@.len(),
            entries@.len() == parsed@.len(),
            forall|j: int| 0 <= j < i ==> !(parsed@[j] is Some && parsed@[j]->Some_0@ == mac@),
        decreases entries@.len() - i,
    {
        match &parsed[i] {
            Some(m) => {
                if same_mac(m, mac) {
                    return Some(entries[i].1.clone());
                }
            },
            None => {},
        }
        i = i + 1;
    }
    None
}

/// The characters that separate words: ASCII whitespace.
pub open spec fn is_ascii_ws(c: char) -> bool {
    c == ' ' || c == '\t' || c == '\n' || c == '\x0C' || c == '\r'
}

/// The words of a text: its maximal runs of characters other than ASCII
/// whitespace, in order.
pub open spec fn words(s: Seq<char>) -> Seq<Seq<char>>
    decreases s.len(),
{
    if s.len() == 0 {
        seq![]
    } else {
        let w = words(s.drop_last());
        let c = s.last();
        if is_ascii_ws(c) {
            w
        } else if s.len() >= 2 && !is_ascii_ws(s[s.len() - 2]) {
            w.drop_last().push(w.last().push(c))
        } else {
            w.push(seq![c])
        }
    }
}

/// The lines of a text: the pieces between newline characters. A carriage
/// return before a newline stays in its line, where it separates no word
/// differently, being whitespace.
pub open spec fn lines(s: Seq<char>) -> Seq<Seq<char>>
    decreases s.len(),
{
    if s.len() == 0 {
        seq![seq![]]
    } else {
        let l = lines(s.drop_last());
        if s.last() == '\n' {
            l.push(seq![])
        } else {
            l.drop_last().push(l.last().push(s.last()))
        }
    }
}

/// The (address, handle) pair of one line of the connection listing: its
/// third and fifth words, where it has five.
pub open spec fn entry_of(line: Seq<char>) -> Option<(Seq<char>, Seq<char>)> {
    if words(line).len() >= 5 {
        Some((words(line)[2], words(line)[4]))
    } else {
        None
    }
}

/// The pairs of a list of lines, in order, skipping lines without one.
pub open spec fn collect_entries(ls: Seq<Seq<char>>) -> Seq<(Seq<char>, Seq<char>)>
    decreases ls.len(),
{
    if ls.len() == 0 {
        seq![]
    } else {
        let rest = collect_entries(ls.drop_last());
        match entry_of(ls.last()) {
            Some(e) => rest.push(e),
            None => rest,
        }
    }
}

/// The connections listed by the host tool: one pair for each line after the
/// heading line.
pub open spec fn connections(text: Seq<char>) -> Seq<(Seq<char>, Seq<char>)> {
    collect_entries(lines(text).skip(1))
}

/// The pairs of a list, as character sequences.
pub open spec fn pairs_of(v: Seq<(String, String)>) -> Seq<(Seq<char>, Seq<char>)> {
    v.map_values(|p: (String, String)| (p.0@, p.1@))
}

fn is_ws_char(c: char) -> (r: bool)
    ensures
        r == is_ascii_ws(c),
{
    c == ' ' || c == '\t' || c == '\n' || c == '\x0C' || c == '\r'
}

/// Splits a text into its words.
pub fn split_words(s: &str) -> (r: Vec<String>)
    ensures
        names_of(r@) == words(s@),
{
    let n = s.unicode_len();
    let mut out: Vec<String> = Vec::new();
    let mut start: usize = 0;
    let mut in_word = false;
    let mut i: usize = 0;
    while i < n
        invariant
            n == s@.len(),
            i <= n,
            start <= i,
            in_word ==> start < i && names_of(out@).push(s@.subrange(start as int, i as int))
                == words(s@.take(i as int)) && (start == 0 || is_ascii_ws(s@[start - 1]))
                && forall|k: int| start <= k < i ==> !is_ascii_ws(s@[k]),
            !in_word ==> names_of(out@) == words(s@.take(i as int)) && (i == 0 || is_ascii_ws(
                s@[i - 1],
            )),
        decreases n - i,
    {
        let c = s.get_char(i);
        let ghost t = s@.take(i as int + 1);
        assert(t.drop_last() =~= s@.take(i as int));
        assert(t.last() == c);
        if is_ws_char(c) {
            if in_word {
                let w = s.substring_char(start, i);
                out.push(String::from_str(w));
                assert(names_of(out@) =~= words(t));
            }
            in_word = false;
        } else {
            if in_word {
                assert(s@[i - 1] == t[t.len() - 2]);
                assert(s@.subrange(start as int, i as int + 1) =~= s@.subrange(
                    start as int,
                    i as int,
                ).push(c));
                assert(names_of(out@).push(s@.subrange(start as int, i as int + 1)) =~= words(t));
            } else {
                if i > 0 {
                    assert(s@[i - 1] == t[t.len() - 2]);
                }
                start = i;
                assert(s@.subrange(start as int, i as int + 1) =~= seq![c]);
                assert(names_of(out@).push(s@.subrange(start as int, i as int + 1)) =~= words(t));
            }
            in_word = true;
        }
        i = i + 1;
    }
    assert(s@.take(n as int) =~= s@);
    if in_word {
        let w = s.substring_char(start, n);
        out.push(String::from_str(w));
        assert(names_of(out@) =~= words(s@));
    }
    out
}

/// Splits a text into its lines.
pub fn split_lines(s: &str) -> (r: Vec<String>)
    ensures
        names_of(r@) == lines(s@),
{
    let n = s.unicode_len();
    let mut out: Vec<String> = Vec::new();
    let mut start: usize = 0;
    let mut i: usize = 0;
    assert(s@.take(0) =~= Seq::<char>::empty());
    assert(names_of(out@).push(s@.subrange(0, 0)) =~= lines(s@.take(0)));
    while i < n
        invariant
            n == s@.len(),
            start <= i <= n,
            names_of(out@).push(s@.subrange(start as int, i as int)) == lines(s@.take(i as int)),
        decreases n - i,
    {
        let c = s.get_char(i);
        let ghost t = s@.take(i as int + 1);
        assert(t.drop_last() =~= s@.take(i as int));
        assert(t.last() == c);
        if c == '\n' {
            let ghost before = names_of(out@);
            let l = s.substring_char(start, i);
            out.push(String::from_str(l));
            assert(names_of(out@) =~= before.push(s@.subrange(start as int, i as int)));
            start = i + 1;
            assert(lines(t) == lines(s@.take(i as int)).push(Seq::<char>::empty()));
            assert(s@.subrange(start as int, i as int + 1) =~= Seq::<char>::empty());
            assert(names_of(out@).push(s@.subrange(start as int, i as int + 1)) =~= lines(t));
        } else {
            assert(s@.subrange(start as int, i as int + 1) =~= s@.subrange(start as int, i as int).push(
                c,
            ));
            assert(names_of(out@).push(s@.subrange(start as int, i as int + 1)) =~= lines(t));
        }
        i = i + 1;
    }
    assert(s@.take(n as int) =~= s@);
    let l = s.substring_char(start, n);
    out.push(String::from_str(l));
    assert(names_of(out@) =~= lines(s@));
    out
}

/// Reads the listing of the host tool's connection command: for each line
/// after the heading, the third word (the device address) and the fifth (the
/// connection handle), where the line has five words.
pub fn connection_entries(text: &str) -> (r: Vec<(String, String)>)
    ensures
        pairs_of(r@) == connections(text@),
{
    let ls = split_lines(text);
    let ghost lv = names_of(ls@);
    assert(lv.len() >= 1) by {
        reveal_with_fuel(lines, 1);
    }
    let mut out: Vec<(String, String)> = Vec::new();
    let mut j: usize = 1;
    while j < ls.len()
        invariant
            1 <= j <= ls@.len(),
            lv == names_of(ls@),
            pairs_of(out@) == collect_entries(lv.subrange(1, j as int)),
        decreases ls@.len() - j,
    {
        let ghost sub = lv.subrange(1, j as int + 1);
        assert(sub.drop_last() =~= lv.subrange(1, j as int));
        assert(sub.last() == ls@[j as int]@);
        let ws = split_words(ls[j].as_str());
        if ws.len() >= 5 {
            assert(names_of(ws@)[2] == ws@[2]@ && names_of(ws@)[4] == ws@[4]@);
            out.push((ws[2].clone(), ws[4].clone()));
        }
        j = j + 1;
        assert(pairs_of(out@) =~= collect_entries(sub));
    }
    assert(lv.subrange(1, j as int) =~= lv.skip(1));
    out
}

} // verus!

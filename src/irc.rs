//! Parsing of one IRC-style protocol line into a command record.
//!
//! A line reads `[@tags ][:prefix ]COMMAND[ destination][ [:]payload]`. Tags are
//! `key=value` items separated by `;`; the sender is the prefix up to its first
//! `!`. A line that does not fit this shape is kept whole as the payload of a
//! record whose command is empty, so that dispatch can pass it over.
use vstd::prelude::*;
use crate::text::{first_of, find_char, lemma_first_of_bounds};

verus! {

/// The part of `s` before its first `c` (all of `s` when there is none).
pub open spec fn head(s: Seq<char>, c: char) -> Seq<char> {
    s.subrange(0, first_of(s, c))
}

/// Whether `s` holds `c`.
pub open spec fn has(s: Seq<char>, c: char) -> bool {
    first_of(s, c) < s.len()
}

/// The part of `s` after its first `c` (empty when there is none).
pub open spec fn tail(s: Seq<char>, c: char) -> Seq<char> {
    if has(s, c) {
        s.subrange(first_of(s, c) + 1, s.len() as int)
    } else {
        Seq::empty()
    }
}

/// `s` without a leading `c`, if it has one.
pub open spec fn strip_lead(s: Seq<char>, c: char) -> Seq<char> {
    if s.len() > 0 && s[0] == c {
        s.drop_first()
    } else {
        s
    }
}

/// Whether `s` starts with `c`.
pub open spec fn starts(s: Seq<char>, c: char) -> bool {
    s.len() > 0 && s[0] == c
}

/// The key and value pairs of a tag section, in order, duplicates included.
pub open spec fn tag_pairs(t: Seq<char>) -> Seq<(Seq<char>, Seq<char>)>
    decreases t.len(),
{
    let i = first_of(t, ';');
    let item = head(t, ';');
    let pair = (head(item, '='), tail(item, '='));
    if 0 <= i < t.len() {
        seq![pair] + tag_pairs(t.subrange(i + 1, t.len() as int))
    } else {
        seq![pair]
    }
}

/// Whether some pair of `d` has the key `k`.
pub open spec fn key_in(d: Seq<(Seq<char>, Seq<char>)>, k: Seq<char>) -> bool {
    exists|j: int| 0 <= j < d.len() && d[j].0 == k
}

/// `ps` with each pair dropped whose key an earlier pair already has.
pub open spec fn keep_first_keys(ps: Seq<(Seq<char>, Seq<char>)>) -> Seq<(Seq<char>, Seq<char>)>
    decreases ps.len(),
{
    if ps.len() == 0 {
        Seq::empty()
    } else {
        let d = keep_first_keys(ps.drop_last());
        if key_in(d, ps.last().0) {
            d
        } else {
            d.push(ps.last())
        }
    }
}

/// Whether no two pairs of `d` have the same key.
pub open spec fn keys_unique(d: Seq<(Seq<char>, Seq<char>)>) -> bool {
    forall|i: int, j: int| 0 <= i < j < d.len() ==> d[i].0 != d[j].0
}

/// The tags kept from a tag section have unique keys, and each pair kept is
/// one of the section's pairs.
pub proof fn lemma_tag_keys_unique(ps: Seq<(Seq<char>, Seq<char>)>)
    ensures
        keys_unique(keep_first_keys(ps)),
        forall|i: int|
            0 <= i < keep_first_keys(ps).len() ==> ps.contains(#[trigger] keep_first_keys(ps)[i]),
    decreases ps.len(),
{
    if ps.len() > 0 {
        let init = ps.drop_last();
        lemma_tag_keys_unique(init);
        let d = keep_first_keys(init);
        assert forall|i: int| 0 <= i < d.len() implies ps.contains(#[trigger] d[i]) by {
            let k = choose|k: int| 0 <= k < init.len() && init[k] == d[i];
            assert(ps[k] == d[i]);
        }
        if !key_in(d, ps.last().0) {
            let e = d.push(ps.last());
            assert(ps[ps.len() - 1] == ps.last());
            assert forall|i: int, j: int| 0 <= i < j < e.len() implies e[i].0 != e[j].0 by {
                if j == d.len() {
                    assert(e[i] == d[i]);
                } else {
                    assert(e[i] == d[i] && e[j] == d[j]);
                }
            }
            assert forall|i: int| 0 <= i < e.len() implies ps.contains(#[trigger] e[i]) by {
                if i < d.len() {
                    assert(e[i] == d[i]);
                }
            }
        }
    }
}

/// What a parsed line holds, as text.
pub struct LineModel {
    pub tags: Seq<(Seq<char>, Seq<char>)>,
    pub command: Seq<char>,
    pub sender: Seq<char>,
    pub destination: Seq<char>,
    pub payload: Seq<char>,
}

/// The line without its tag section.
pub open spec fn after_tags(line: Seq<char>) -> Seq<char> {
    if starts(line, '@') {
        tail(line.drop_first(), ' ')
    } else {
        line
    }
}

/// The line without its tag section and prefix.
pub open spec fn after_prefix(line: Seq<char>) -> Seq<char> {
    let b = after_tags(line);
    if starts(b, ':') {
        tail(b.drop_first(), ' ')
    } else {
        b
    }
}

/// Whether `line` has the shape of a protocol line: a tag section and a prefix,
/// where present, are each closed by a space, and a command follows.
pub open spec fn parses(line: Seq<char>) -> bool {
    &&& (starts(line, '@') ==> has(line.drop_first(), ' '))
    &&& (starts(after_tags(line), ':') ==> has(after_tags(line).drop_first(), ' '))
    &&& head(after_prefix(line), ' ').len() > 0
}

/// The record that parsing `line` gives.
pub open spec fn parse_line(line: Seq<char>) -> LineModel {
    if !parses(line) {
        LineModel {
            tags: Seq::empty(),
            command: Seq::empty(),
            sender: Seq::empty(),
            destination: Seq::empty(),
            payload: line,
        }
    } else {
        let tag_text = if starts(line, '@') {
            head(line.drop_first(), ' ')
        } else {
            Seq::empty()
        };
        let b = after_tags(line);
        let prefix = if starts(b, ':') {
            head(b.drop_first(), ' ')
        } else {
            Seq::empty()
        };
        let rest = after_prefix(line);
        let params = tail(rest, ' ');
        let destination = if starts(params, ':') {
            Seq::empty()
        } else {
            head(params, ' ')
        };
        let trailing = if starts(params, ':') {
            params
        } else {
            tail(params, ' ')
        };
        LineModel {
            tags: if starts(line, '@') {
                keep_first_keys(tag_pairs(tag_text))
            } else {
                Seq::empty()
            },
            command: head(rest, ' '),
            sender: head(prefix, '!'),
            destination,
            payload: strip_lead(trailing, ':'),
        }
    }
}

/// `s` split at its first `c`: the part before, the part after, and whether
/// there was a `c`.
pub fn split_once(s: &str, c: char) -> (r: (&str, &str, bool))
    ensures
        r.0@ == head(s@, c),
        r.1@ == tail(s@, c),
        r.2 == has(s@, c),
{
    let i = find_char(s, c);
    let n = s.unicode_len();
    let before = s.substring_char(0, i);
    if i < n {
        (before, s.substring_char(i + 1, n), true)
    } else {
        (before, s.substring_char(n, n), false)
    }
}

/// `s` without its first character; `s` itself when it is empty.
fn drop_first_char(s: &str) -> (r: &str)
    ensures
        s@.len() > 0 ==> r@ == s@.drop_first(),
        s@.len() == 0 ==> r@ == s@,
{
    let n = s.unicode_len();
    if n > 0 {
        s.substring_char(1, n)
    } else {
        s
    }
}

/// Whether `s` starts with `c`.
fn starts_with_char(s: &str, c: char) -> (r: bool)
    ensures
        r == starts(s@, c),
{
    s.unicode_len() > 0 && s.get_char(0) == c
}

/// The command, sender and destination of a parsed line.
pub struct IrcContext {
    pub command: String,
    pub sender: String,
    pub destination: String,
}

/// One parsed protocol line.
pub struct IrcMessage {
    pub tags: Vec<(String, String)>,
    pub context: IrcContext,
    pub payload: String,
}

/// The text of each pair of `v`.
pub open spec fn pairs_view(v: Seq<(String, String)>) -> Seq<(Seq<char>, Seq<char>)> {
    v.map_values(|p: (String, String)| (p.0@, p.1@))
}

impl IrcMessage {
    pub open spec fn view(&self) -> LineModel {
        LineModel {
            tags: pairs_view(self.tags@),
            command: self.context.command@,
            sender: self.context.sender@,
            destination: self.context.destination@,
            payload: self.payload@,
        }
    }
}

/// Splits a tag section into its key and value pairs, in order.
fn split_tags(t: &str) -> (r: Vec<(String, String)>)
    ensures
        pairs_view(r@) == tag_pairs(t@),
{
    let mut rest: &str = t;
    let mut out: Vec<(String, String)> = Vec::new();
    loop
        invariant_except_break
            pairs_view(out@) + tag_pairs(rest@) == tag_pairs(t@),
        ensures
            pairs_view(out@) == tag_pairs(t@),
        decreases rest@.len(),
    {
        let (item, next, more) = split_once(rest, ';');
        proof {
            lemma_first_of_bounds(rest@, ';');
        }
        let (key, value, _) = split_once(item, '=');
        let pair = (String::from_str(key), String::from_str(value));
        proof {
            assert(pairs_view(out@.push(pair)) =~= pairs_view(out@).push((key@, value@)));
        }
        out.push(pair);
        if more {
            proof {
                assert(tag_pairs(rest@) == seq![(key@, value@)] + tag_pairs(next@));
                assert(pairs_view(out@) + tag_pairs(next@)
                    =~= pairs_view(out@.drop_last()) + (seq![(key@, value@)] + tag_pairs(next@)));
            }
            rest = next;
        } else {
            proof {
                assert(tag_pairs(rest@) == seq![(key@, value@)]);
            }
            break;
        }
    }
    out
}

/// Whether some pair of `d` has the key `k`.
fn has_key(d: &Vec<(String, String)>, k: &String) -> (r: bool)
    ensures
        r == key_in(pairs_view(d@), k@),
{
    let mut j: usize = 0;
    while j < d.len()
        invariant
            j <= d@.len(),
            forall|i: int| 0 <= i < j ==> pairs_view(d@)[i].0 != k@,
        decreases d@.len() - j,
    {
        if d[j].0 == *k {
            assert(pairs_view(d@)[j as int].0 == k@);
            return true;
        }
        j = j + 1;
    }
    false
}

/// The tags of a tag section, each key kept with its first value.
pub fn parse_tags(t: &str) -> (r: Vec<(String, String)>)
    ensures
        pairs_view(r@) == keep_first_keys(tag_pairs(t@)),
{
    let all = split_tags(t);
    let mut out: Vec<(String, String)> = Vec::new();
    let mut i: usize = 0;
    while i < all.len()
        invariant
            i <= all@.len(),
            pairs_view(all@) == tag_pairs(t@),
            pairs_view(out@) == keep_first_keys(pairs_view(all@).take(i as int)),
        decreases all@.len() - i,
    {
        let ghost ps = pairs_view(all@).take(i + 1);
        proof {
            assert(ps.drop_last() =~= pairs_view(all@).take(i as int));
        }
        let (k, v) = &all[i];
        if !has_key(&out, k) {
            let pair = (k.clone(), v.clone());
            proof {
                assert(pairs_view(out@.push(pair)) =~= pairs_view(out@).push(ps.last()));
            }
            out.push(pair);
        }
        i = i + 1;
    }
    proof {
        assert(pairs_view(all@).take(all@.len() as int) =~= pairs_view(all@));
    }
    out
}

/// Parses one protocol line. A line that does not parse gives a record with an
/// empty command and the whole line as its payload; parsing never fails.
pub fn parse_message(line: &str) -> (m: IrcMessage)
    ensures
        m.view() == parse_line(line@),
{
    let tagged = starts_with_char(line, '@');
    let (tag_text, body, ok_tags) = if tagged {
        split_once(drop_first_char(line), ' ')
    } else {
        ("", line, true)
    };
    let prefixed = starts_with_char(body, ':');
    let (prefix, rest, ok_prefix) = if prefixed {
        split_once(drop_first_char(body), ' ')
    } else {
        ("", body, true)
    };
    let (command, params, _) = split_once(rest, ' ');
    if !ok_tags || !ok_prefix || command.unicode_len() == 0 {
        let tags: Vec<(String, String)> = Vec::new();
        proof {
            assert(!parses(line@));
            assert(pairs_view(tags@) =~= Seq::<(Seq<char>, Seq<char>)>::empty());
        }
        return IrcMessage {
            tags,
            context: IrcContext {
                command: String::new(),
                sender: String::new(),
                destination: String::new(),
            },
            payload: String::from_str(line),
        };
    }
    let (sender, _, _) = split_once(prefix, '!');
    let trailing_only = starts_with_char(params, ':');
    let (destination, trailing) = if trailing_only {
        ("", params)
    } else {
        let (d, t, _) = split_once(params, ' ');
        (d, t)
    };
    let payload = if starts_with_char(trailing, ':') {
        drop_first_char(trailing)
    } else {
        trailing
    };
    let tags = if tagged {
        parse_tags(tag_text)
    } else {
        Vec::new()
    };
    proof {
        reveal_strlit("");
        assert(pairs_view(Seq::empty()) =~= Seq::<(Seq<char>, Seq<char>)>::empty());
        assert(parses(line@));
        let lm = parse_line(line@);
        assert(lm.command == command@);
        assert(lm.sender == sender@);
        assert(lm.destination == destination@);
        assert(lm.payload == payload@);
        assert(lm.tags == pairs_view(tags@));
    }
    IrcMessage {
        tags,
        context: IrcContext {
            command: String::from_str(command),
            sender: String::from_str(sender),
            destination: String::from_str(destination),
        },
        payload: String::from_str(payload),
    }
}

} // verus!

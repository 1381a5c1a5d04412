use vstd::prelude::*;

use crate::error::EngineError;

verus! {

/// One named payload: the variant's name and the data handed to the content
/// generator.
#[derive(Clone, PartialEq, Eq, Debug)]
pub struct PayloadRecord {
    pub name: String,
    pub payload: String,
}

/// The index of the first comma at or after `from`, if any.
pub open spec fn comma_from(s: Seq<char>, from: int) -> Option<int>
    decreases s.len() - from,
{
    if from < 0 || from >= s.len() {
        None
    } else if s[from] == ',' {
        Some(from)
    } else {
        comma_from(s, from + 1)
    }
}

/// What `comma_from` means: the least comma position at or after `from`.
pub proof fn lemma_comma_from(s: Seq<char>, from: int)
    requires
        0 <= from,
    ensures
        match comma_from(s, from) {
            None => forall|k: int| from <= k < s.len() ==> (#[trigger] s[k]) != ',',
            Some(c) => {
                &&& from <= c < s.len()
                &&& s[c] == ','
                &&& forall|k: int| from <= k < c ==> (#[trigger] s[k]) != ','
            },
        },
    decreases s.len() - from,
{
    if from < s.len() && s[from] != ',' {
        lemma_comma_from(s, from + 1);
    }
}

/// Pinning `comma_from` down from local knowledge.
pub proof fn lemma_comma_from_at(s: Seq<char>, from: int, j: int)
    requires
        0 <= from <= j < s.len(),
        s[j] == ',',
        forall|k: int| from <= k < j ==> (#[trigger] s[k]) != ',',
    ensures
        comma_from(s, from) == Some(j),
    decreases j - from,
{
    if from < j {
        lemma_comma_from_at(s, from + 1, j);
    }
}

/// A stretch without commas has none to find.
pub proof fn lemma_comma_from_none(s: Seq<char>, from: int)
    requires
        0 <= from,
        forall|k: int| from <= k < s.len() ==> (#[trigger] s[k]) != ',',
    ensures
        comma_from(s, from) is None,
    decreases s.len() - from,
{
    if from < s.len() {
        lemma_comma_from_none(s, from + 1);
    }
}

/// The name field of a record line: everything before the first comma.
pub open spec fn line_name(s: Seq<char>) -> Seq<char> {
    match comma_from(s, 0) {
        None => s,
        Some(c) => s.take(c),
    }
}

/// The payload field of a record line: everything between the first comma
/// and the second (or the end of the line); anything after a second comma is
/// ignored.
pub open spec fn line_payload(s: Seq<char>) -> Seq<char> {
    match comma_from(s, 0) {
        None => s,
        Some(c) => match comma_from(s, c + 1) {
            None => s.subrange(c + 1, s.len() as int),
            Some(c2) => s.subrange(c + 1, c2),
        },
    }
}

/// The character sequences of a list of lines.
pub open spec fn views_of(lines: Seq<String>) -> Seq<Seq<char>> {
    Seq::new(lines.len(), |i: int| lines[i]@)
}

/// The record lines of a payload list: blank lines are skipped.
pub open spec fn nonblank_lines(lines: Seq<Seq<char>>) -> Seq<Seq<char>> {
    lines.filter(|s: Seq<char>| s.len() > 0)
}

/// Finds the first comma of `s` at or after character position `from`.
pub fn find_comma_from(s: &str, from: usize) -> (res: Option<usize>)
    ensures
        res matches Some(c) ==> from <= c < s@.len() && comma_from(s@, from as int) == Some(
            c as int,
        ),
        res is None ==> comma_from(s@, from as int) is None,
{
    let n = s.unicode_len();
    let mut j: usize = from;
    while j < n
        invariant
            n == s@.len(),
            from <= j,
            forall|k: int| from <= k < j ==> (#[trigger] s@[k]) != ',',
        decreases n - j,
    {
        if s.get_char(j) == ',' {
            proof {
                lemma_comma_from_at(s@, from as int, j as int);
            }
            return Some(j);
        }
        j = j + 1;
    }
    proof {
        lemma_comma_from_none(s@, from as int);
    }
    None
}

/// Parses a newline-split payload list into its records.
///
/// Record lines read `name,payload`; blank lines are skipped; anything after
/// a second comma is ignored.  A single non-blank line without a comma is
/// accepted as a one-variant shorthand whose name and payload are both the
/// whole line.  In any other position a line without a comma is a record
/// missing its payload field, and the whole list is rejected.
pub fn parse_payload_list(lines: &Vec<String>) -> (res: Result<Vec<PayloadRecord>, EngineError>)
    ensures
        ({
            let nb = nonblank_lines(views_of(lines@));
            match res {
                Ok(records) => {
                    if nb.len() == 1 && comma_from(nb[0], 0) is None {
                        &&& records@.len() == 1
                        &&& records@[0].name@ == nb[0]
                        &&& records@[0].payload@ == nb[0]
                    } else {
                        &&& forall|k: int|
                            0 <= k < nb.len() ==> comma_from(#[trigger] nb[k], 0) is Some
                        &&& records@.len() == nb.len()
                        &&& forall|k: int|
                            0 <= k < nb.len() ==> {
                                &&& (#[trigger] records@[k]).name@ == line_name(nb[k])
                                &&& records@[k].payload@ == line_payload(nb[k])
                            }
                    }
                },
                Err(e) => {
                    &&& e == EngineError::MalformedPayloadRecord
                    &&& !(nb.len() == 1 && comma_from(nb[0], 0) is None)
                    &&& exists|k: int|
                        0 <= k < nb.len() && comma_from(#[trigger] nb[k], 0) is None
                },
            }
        }),
{
    let ghost vs = views_of(lines@);
    let mut nonblank: Vec<String> = Vec::new();
    proof {
        reveal(Seq::filter);
        assert(views_of(nonblank@) =~= nonblank_lines(vs.take(0)));
    }
    let mut i: usize = 0;
    while i < lines.len()
        invariant
            vs == views_of(lines@),
            i <= lines@.len(),
            views_of(nonblank@) == nonblank_lines(vs.take(i as int)),
        decreases lines@.len() - i,
    {
        let line = &lines[i];
        let ghost pre = nonblank@;
        let blank = line.as_str().unicode_len() == 0;
        if !blank {
            nonblank.push(line.clone());
        }
        proof {
            reveal(Seq::filter);
            let cur = vs.take(i as int + 1);
            let prev = vs.take(i as int);
            assert(cur.drop_last() =~= prev);
            assert(cur.last() == lines@[i as int]@);
            assert(nonblank_lines(cur) == if cur.last().len() > 0 {
                nonblank_lines(prev).push(cur.last())
            } else {
                nonblank_lines(prev)
            });
            if !blank {
                assert(views_of(nonblank@) =~= views_of(pre).push(lines@[i as int]@));
            } else {
                assert(views_of(nonblank@) =~= views_of(pre));
            }
        }
        i = i + 1;
    }
    proof {
        assert(vs.take(lines@.len() as int) =~= vs);
    }
    let ghost nb = nonblank_lines(vs);

    if nonblank.len() == 1 {
        if find_comma_from(nonblank[0].as_str(), 0).is_none() {
            let mut records: Vec<PayloadRecord> = Vec::new();
            records.push(
                PayloadRecord { name: nonblank[0].clone(), payload: nonblank[0].clone() },
            );
            return Ok(records);
        }
    }

    let mut records: Vec<PayloadRecord> = Vec::new();
    let mut k: usize = 0;
    while k < nonblank.len()
        invariant
            vs == views_of(lines@),
            nb == nonblank_lines(vs),
            views_of(nonblank@) == nb,
            k <= nonblank@.len(),
            records@.len() == k,
            forall|j: int| 0 <= j < k ==> comma_from(#[trigger] nb[j], 0) is Some,
            forall|j: int|
                0 <= j < k ==> {
                    &&& (#[trigger] records@[j]).name@ == line_name(nb[j])
                    &&& records@[j].payload@ == line_payload(nb[j])
                },
            !(nb.len() == 1 && comma_from(nb[0], 0) is None),
        decreases nonblank@.len() - k,
    {
        let line = nonblank[k].as_str();
        match find_comma_from(line, 0) {
            None => {
                proof {
                    assert(nb[k as int] == line@);
                    assert(comma_from(nb[k as int], 0) is None);
                }
                return Err(EngineError::MalformedPayloadRecord);
            },
            Some(c) => {
                proof {
                    lemma_comma_from(line@, 0);
                }
                let name = line.substring_char(0, c).to_owned();
                let nlen = line.unicode_len();
                let pend: usize = match find_comma_from(line, c + 1) {
                    None => nlen,
                    Some(c2) => c2,
                };
                let payload = line.substring_char(c + 1, pend).to_owned();
                records.push(PayloadRecord { name, payload });
            },
        }
        k = k + 1;
    }
    Ok(records)
}

/// The output pattern with every placeholder token `#` replaced by `name`.
pub open spec fn substituted(p: Seq<char>, name: Seq<char>) -> Seq<char>
    decreases p.len(),
{
    if p.len() == 0 {
        Seq::<char>::empty()
    } else {
        substituted(p.drop_last(), name) + (if p.last() == '#' {
            name
        } else {
            seq![p.last()]
        })
    }
}

/// Builds the output name for one variant: every `#` in the pattern is
/// replaced by the variant's name.
pub fn substitute_pattern(pattern: &str, name: &str) -> (out: String)
    ensures
        out@ == substituted(pattern@, name@),
{
    let n = pattern.unicode_len();
    let mut out = String::new();
    let mut i: usize = 0;
    while i < n
        invariant
            n == pattern@.len(),
            i <= n,
            out@ == substituted(pattern@.take(i as int), name@),
        decreases n - i,
    {
        let c = pattern.get_char(i);
        if c == '#' {
            out.append(name);
        } else {
            let piece = pattern.substring_char(i, i + 1);
            proof {
                assert(piece@ =~= seq![pattern@[i as int]]);
            }
            out.append(piece);
        }
        proof {
            let cur = pattern@.take(i as int + 1);
            assert(cur.drop_last() =~= pattern@.take(i as int));
            assert(cur.last() == pattern@[i as int]);
        }
        i = i + 1;
    }
    proof {
        assert(pattern@.take(n as int) =~= pattern@);
    }
    out
}

} // verus!

//! The editor round-trip's text work: rendering the scratch buffer that the
//! external editor opens, and parsing the edited content back into a subject
//! and a body.
//!
//! Parsing trims every line, drops lines that begin with the comment marker
//! `#`, takes the first non-empty remaining line as the subject, and joins
//! the non-empty lines after it with newlines as the body. Spawning the
//! editor and reading the scratch file back is the caller's work; only the
//! content passes through here.

use crate::text::{join_lines, lemma_join_lines_push, lines_of, split_lines, trim, trim_of};
use vstd::prelude::*;
use vstd::string::*;

verus! {

/// A line whose first character is the comment marker.
pub open spec fn is_comment(l: Seq<char>) -> bool {
    l.len() > 0 && l[0] == '#'
}

/// The lines kept for parsing: every line trimmed, comment lines dropped.
pub open spec fn kept_of(ls: Seq<Seq<char>>) -> Seq<Seq<char>>
    decreases ls.len(),
{
    if ls.len() == 0 {
        Seq::<Seq<char>>::empty()
    } else {
        let rest = kept_of(ls.drop_last());
        let t = trim(ls.last());
        if is_comment(t) {
            rest
        } else {
            rest.push(t)
        }
    }
}

/// The first non-empty line, if any.
pub open spec fn subject_of(ls: Seq<Seq<char>>) -> Option<Seq<char>>
    decreases ls.len(),
{
    if ls.len() == 0 {
        None
    } else if ls[0].len() > 0 {
        Some(ls[0])
    } else {
        subject_of(ls.drop_first())
    }
}

/// The non-empty lines of `ls`, in order.
pub open spec fn nonempty_of(ls: Seq<Seq<char>>) -> Seq<Seq<char>>
    decreases ls.len(),
{
    if ls.len() == 0 {
        Seq::<Seq<char>>::empty()
    } else {
        let rest = nonempty_of(ls.drop_last());
        if ls.last().len() > 0 {
            rest.push(ls.last())
        } else {
            rest
        }
    }
}

/// The non-empty lines after the first non-empty one.
pub open spec fn body_lines_of(ls: Seq<Seq<char>>) -> Seq<Seq<char>>
    decreases ls.len(),
{
    if ls.len() == 0 {
        Seq::<Seq<char>>::empty()
    } else if ls[0].len() > 0 {
        nonempty_of(ls.drop_first())
    } else {
        body_lines_of(ls.drop_first())
    }
}

/// The subject that scratch content parses to.
pub open spec fn scratch_subject(s: Seq<char>) -> Option<Seq<char>> {
    subject_of(kept_of(split_lines(s)))
}

/// The body that scratch content parses to.
pub open spec fn scratch_body(s: Seq<char>) -> Seq<char> {
    join_lines(body_lines_of(kept_of(split_lines(s))))
}

proof fn lemma_kept_push(ls: Seq<Seq<char>>, x: Seq<char>)
    ensures
        kept_of(ls.push(x)) == if is_comment(trim(x)) {
            kept_of(ls)
        } else {
            kept_of(ls).push(trim(x))
        },
{
    assert(ls.push(x).drop_last() =~~= ls);
}

proof fn lemma_nonempty_push(ls: Seq<Seq<char>>, x: Seq<char>)
    ensures
        nonempty_of(ls.push(x)) == if x.len() > 0 {
            nonempty_of(ls).push(x)
        } else {
            nonempty_of(ls)
        },
{
    assert(ls.push(x).drop_last() =~~= ls);
}

proof fn lemma_subject_skip(ls: Seq<Seq<char>>, j: int)
    requires
        0 <= j <= ls.len(),
        forall|k: int| 0 <= k < j ==> ls[k].len() == 0,
    ensures
        subject_of(ls) == subject_of(ls.skip(j)),
        body_lines_of(ls) == body_lines_of(ls.skip(j)),
    decreases j,
{
    if j == 0 {
        assert(ls.skip(0) =~~= ls);
    } else {
        lemma_subject_skip(ls.drop_first(), j - 1);
        assert(ls.drop_first().skip(j - 1) =~~= ls.skip(j));
    }
}

/// Parses edited scratch content into the optional subject and the body.
pub fn parse_editor_content(content: &str) -> (r: (Option<String>, String))
    ensures
        r.0.deep_view() == scratch_subject(content@),
        r.1@ == scratch_body(content@),
{
    proof {
        reveal_strlit("\n");
    }
    let lines = lines_of(content);
    let ghost all = split_lines(content@);
    let mut kept: Vec<String> = Vec::new();
    let mut i: usize = 0;
    while i < lines.len()
        invariant
            i <= lines.len(),
            lines.deep_view() == all,
            kept.deep_view() == kept_of(all.take(i as int)),
        decreases lines.len() - i,
    {
        let t = trim_of(lines[i].as_str()).to_owned();
        proof {
            assert(lines.deep_view()[i as int] == lines[i as int]@);
            lemma_kept_push(all.take(i as int), all[i as int]);
            assert(all.take(i + 1) =~~= all.take(i as int).push(all[i as int]));
        }
        let keep = if t.as_str().unicode_len() > 0 {
            t.as_str().get_char(0) != '#'
        } else {
            true
        };
        if keep {
            let ghost old_dv = kept.deep_view();
            kept.push(t);
            proof {
                assert(kept.deep_view() =~~= old_dv.push(trim(all[i as int])));
            }
        }
        i = i + 1;
    }
    proof {
        assert(all.take(all.len() as int) =~~= all);
    }
    let ghost ks = kept_of(all);
    let mut idx: usize = 0;
    while idx < kept.len() && kept[idx].as_str().is_empty()
        invariant
            idx <= kept.len(),
            kept.deep_view() == ks,
            forall|k: int| 0 <= k < idx ==> ks[k].len() == 0,
        decreases kept.len() - idx,
    {
        proof {
            assert(kept.deep_view()[idx as int] == kept[idx as int]@);
        }
        idx = idx + 1;
    }
    proof {
        lemma_subject_skip(ks, idx as int);
    }
    if idx == kept.len() {
        proof {
            assert(ks.skip(idx as int) =~~= Seq::<Seq<char>>::empty());
        }
        (None, String::new())
    } else {
        let subject = kept[idx].clone();
        proof {
            assert(kept.deep_view()[idx as int] == kept[idx as int]@);
            assert(ks.skip(idx as int)[0] == ks[idx as int]);
            assert(subject_of(ks) == Some(ks[idx as int]));
            assert(body_lines_of(ks) == nonempty_of(ks.skip(idx as int).drop_first()));
            assert(ks.skip(idx as int).drop_first() =~~= ks.skip(idx + 1));
        }
        let mut body = String::new();
        let mut any = false;
        let mut j: usize = idx + 1;
        while j < kept.len()
            invariant
                idx + 1 <= j <= kept.len(),
                kept.deep_view() == ks,
                body@ == join_lines(nonempty_of(ks.subrange(idx + 1, j as int))),
                any <==> nonempty_of(ks.subrange(idx + 1, j as int)).len() > 0,
            decreases kept.len() - j,
        {
            proof {
                reveal_strlit("\n");
                assert(kept.deep_view()[j as int] == kept[j as int]@);
                lemma_nonempty_push(ks.subrange(idx + 1, j as int), ks[j as int]);
                assert(ks.subrange(idx + 1, j + 1) =~~= ks.subrange(idx + 1, j as int).push(
                    ks[j as int],
                ));
            }
            if !kept[j].as_str().is_empty() {
                proof {
                    lemma_join_lines_push(
                        nonempty_of(ks.subrange(idx + 1, j as int)),
                        ks[j as int],
                    );
                }
                if any {
                    body.append("\n");
                }
                body.append(kept[j].as_str());
                proof {
                    assert(body@ =~= join_lines(nonempty_of(ks.subrange(idx + 1, j + 1))));
                }
                any = true;
            }
            j = j + 1;
        }
        proof {
            assert(ks.subrange(idx + 1, ks.len() as int) =~~= ks.skip(idx + 1));
        }
        (Some(subject), body)
    }
}

/// The scratch buffer's initial content: a commented instruction header,
/// the subject, a commented body header, and the body.
pub open spec fn scratch_template(subject: Seq<char>, body: Seq<char>) -> Seq<char> {
    "# Subject (/!\\ the subject must fit on one line /!\\)\n\n"@ + subject
        + "\n\n# Body\n\n"@ + body + "\n\n"@
}

/// Renders the scratch buffer that the external editor opens.
pub fn editor_template(subject: &str, body: &str) -> (r: String)
    ensures
        r@ == scratch_template(subject@, body@),
{
    let mut s = "# Subject (/!\\ the subject must fit on one line /!\\)\n\n".to_owned();
    s.append(subject);
    s.append("\n\n# Body\n\n");
    s.append(body);
    s.append("\n\n");
    proof {
        assert(s@ =~= scratch_template(subject@, body@));
    }
    s
}

/// The message reported when the editor round-trip fails, with the
/// remediation hint ahead of the underlying detail.
pub open spec fn editor_error_message(detail: Seq<char>) -> Seq<char> {
    "Failed to open tmp file. Please provide email subject and body through CLI arguments, or use --bypass-editor to provide empty ones.\nError information: "@
        + detail
}

/// The text of [`editor_error_message`] as a fresh string.
pub fn editor_error_text(detail: &str) -> (r: String)
    ensures
        r@ == editor_error_message(detail@),
{
    crate::text::prefixed(
        "Failed to open tmp file. Please provide email subject and body through CLI arguments, or use --bypass-editor to provide empty ones.\nError information: ",
        detail,
    )
}

} // verus!

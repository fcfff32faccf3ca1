use vstd::prelude::*;
use crate::text::{chars_of, join_words, push_char, split_words, words_of};
use crate::transcribe::{join_segments, lemma_joined_segments_words};

verus! {

// Plain text for exported transcripts.

/// Whether a tag is open after reading `s`.
pub open spec fn in_tag_after(s: Seq<char>) -> bool
    decreases s.len(),
{
    if s.len() == 0 {
        false
    } else if s.last() == '<' {
        true
    } else if s.last() == '>' {
        false
    } else {
        in_tag_after(s.drop_last())
    }
}

/// The characters of `s` outside `<...>` tags, the brackets dropped.
pub open spec fn outside_tags(s: Seq<char>) -> Seq<char>
    decreases s.len(),
{
    if s.len() == 0 {
        s
    } else {
        let rest = outside_tags(s.drop_last());
        let c = s.last();
        if c != '<' && c != '>' && !in_tag_after(s.drop_last()) {
            rest.push(c)
        } else {
            rest
        }
    }
}

/// `html` without tags, its whitespace runs turned into single spaces and
/// trimmed.
pub open spec fn plain_text(html: Seq<char>) -> Seq<char> {
    join_words(words_of(outside_tags(html)))
}

/// The text of a transcript stored as HTML.
pub fn strip_html_tags(html: &str) -> (r: String)
    ensures
        r@ == plain_text(html@),
{
    let cs = chars_of(html);
    let mut kept = String::new();
    let mut in_tag = false;
    let mut i: usize = 0;
    while i < cs.len()
        invariant
            cs@ == html@,
            i <= cs@.len(),
            kept@ == outside_tags(cs@.subrange(0, i as int)),
            in_tag == in_tag_after(cs@.subrange(0, i as int)),
        decreases cs@.len() - i,
    {
        proof {
            assert(cs@.subrange(0, i as int + 1).drop_last() =~= cs@.subrange(0, i as int));
        }
        let c = cs[i];
        if c == '<' {
            in_tag = true;
        } else if c == '>' {
            in_tag = false;
        } else if !in_tag {
            push_char(&mut kept, c);
        }
        i += 1;
    }
    assert(cs@.subrange(0, cs@.len() as int) =~= cs@);
    let words = split_words(kept.as_str());
    proof {
        lemma_joined_segments_words(words@, words_of(kept@));
    }
    join_segments(&words)
}

} // verus!

//! File names derived from URL text.

use vstd::prelude::*;
use vstd::std_specs::iter::IteratorSpec;
use vstd::string::StrSliceExecFns;

verus! {

/// `i` is the position of the last `/` of `s`.
pub open spec fn is_final_slash(s: Seq<char>, i: int) -> bool {
    &&& 0 <= i < s.len()
    &&& s[i] == '/'
    &&& forall|j: int| i < j < s.len() ==> s[j] != '/'
}

/// The text after the last `/` of `s`; all of `s` where it holds no `/`.
pub open spec fn last_segment(s: Seq<char>) -> Seq<char> {
    if exists|i: int| is_final_slash(s, i) {
        s.subrange((choose|i: int| is_final_slash(s, i)) + 1, s.len() as int)
    } else {
        s
    }
}

/// `s` holds no `/`.
pub open spec fn slash_free(s: Seq<char>) -> bool {
    forall|j: int| 0 <= j < s.len() ==> s[j] != '/'
}

/// A text has at most one last `/`.
pub proof fn lemma_final_slash_unique(s: Seq<char>, i: int, k: int)
    requires
        is_final_slash(s, i),
        is_final_slash(s, k),
    ensures
        i == k,
{
    if i < k {
        assert(s[k] != '/');
    } else if k < i {
        assert(s[i] != '/');
    }
}

/// A text that holds a `/` has a last one.
pub proof fn lemma_final_slash_exists(s: Seq<char>)
    requires
        !slash_free(s),
    ensures
        exists|i: int| is_final_slash(s, i),
    decreases s.len(),
{
    let j = choose|j: int| 0 <= j < s.len() && s[j] == '/';
    if s.last() == '/' {
        assert(is_final_slash(s, s.len() - 1));
    } else {
        let t = s.drop_last();
        assert(t[j] == '/');
        lemma_final_slash_exists(t);
        let i = choose|i: int| is_final_slash(t, i);
        assert forall|k: int| i < k < s.len() implies s[k] != '/' by {
            if k < t.len() {
                assert(t[k] != '/');
            }
        }
        assert(s[i] == t[i]);
        assert(is_final_slash(s, i));
    }
}

/// The file name of a URL is what follows its last `/`; a URL without a `/`
/// is its own file name. Whichever holds, the name is free of `/`.
pub proof fn lemma_last_segment(s: Seq<char>)
    ensures
        slash_free(s) ==> last_segment(s) == s,
        forall|i: int| is_final_slash(s, i) ==> last_segment(s) == s.subrange(i + 1, s.len() as int),
        !slash_free(s) ==> exists|i: int| is_final_slash(s, i),
        slash_free(last_segment(s)),
        last_segment(s).len() <= s.len(),
{
    if slash_free(s) {
        assert forall|i: int| !is_final_slash(s, i) by {}
    } else {
        lemma_final_slash_exists(s);
        let c = choose|i: int| is_final_slash(s, i);
        assert forall|i: int| is_final_slash(s, i) implies last_segment(s) == s.subrange(
            i + 1,
            s.len() as int,
        ) by {
            lemma_final_slash_unique(s, i, c);
        }
        let seg = s.subrange(c + 1, s.len() as int);
        assert forall|j: int| 0 <= j < seg.len() implies seg[j] != '/' by {
            assert(seg[j] == s[c + 1 + j]);
        }
    }
}

/// The file name that a URL is stored under before anything is fetched: the
/// text after its last `/`, or the whole URL where it holds none.
pub fn get_url_file_name(url: &String) -> (name: String)
    ensures
        name@ == last_segment(url@),
        slash_free(url@) ==> name@ == url@,
        forall|i: int| is_final_slash(url@, i) ==> name@ == url@.subrange(i + 1, url@.len() as int),
        slash_free(name@),
{
    broadcast use vstd::string::next_postcondition, vstd::string::axiom_spec_iter;

    let text = url.as_str();
    let n: usize = text.unicode_len();
    let mut rest = text.chars();
    let mut seen: usize = 0;
    let mut start: usize = 0;
    proof {
        lemma_last_segment(url@);
        assert(text@.skip(0) =~= text@);
    }
    loop
        invariant
            text@ == url@,
            n == text@.len(),
            start <= seen <= n,
            rest.remaining() == text@.skip(seen as int),
            forall|j: int| start <= j < seen ==> text@[j] != '/',
            start > 0 ==> text@[start - 1] == '/',
        ensures
            seen == n,
        decreases n - seen,
    {
        match rest.next() {
            None => {
                break ;
            },
            Some(c) => {
                assert(text@.skip(seen as int).drop_first() =~= text@.skip(seen + 1));
                assert(c == text@[seen as int]);
                seen = seen + 1;
                if c == '/' {
                    start = seen;
                }
            },
        }
    }
    if start == 0 {
        assert(slash_free(url@));
        url.clone()
    } else {
        assert(is_final_slash(url@, start - 1));
        text.substring_char(start, n).to_owned()
    }
}

} // verus!

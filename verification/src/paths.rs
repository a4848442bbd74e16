//! Unix path arithmetic on text: joining as `PathBuf::join` does, and the
//! extension of a file name as `Path::extension` reads it.
use vstd::prelude::*;
use crate::text::{concat2, concat3, owned, str_equal};

verus! {

/// `base` joined with `p`: an absolute `p` replaces `base`; otherwise `p` is appended,
/// with a `/` in between unless `base` is empty or already ends in `/`.
pub open spec fn join_spec(base: Seq<char>, p: Seq<char>) -> Seq<char> {
    if p.len() > 0 && p[0] == '/' {
        p
    } else if base.len() == 0 || base.last() == '/' {
        base + p
    } else {
        base + seq!['/'] + p
    }
}

/// The index of the last `c` in `s`, or -1 when there is none.
pub open spec fn last_index_of(s: Seq<char>, c: char) -> int
    decreases s.len(),
{
    if s.len() == 0 {
        -1
    } else if s.last() == c {
        s.len() - 1
    } else {
        last_index_of(s.drop_last(), c)
    }
}

/// The extension of a file name: the text after its last `.`, where that dot is not
/// the first character; `..` has none.
pub open spec fn extension_spec(name: Seq<char>) -> Option<Seq<char>> {
    let k = last_index_of(name, '.');
    if name == seq!['.', '.'] || k <= 0 {
        None
    } else {
        Some(name.skip(k + 1))
    }
}

/// `base` joined with `p`, as `Path::new(base).join(p)` on Unix.
pub fn join_path(base: &str, p: &str) -> (r: String)
    ensures
        r@ == join_spec(base@, p@),
{
    proof {
        reveal_strlit("/");
    }
    let pn = p.unicode_len();
    if pn > 0 && p.get_char(0) == '/' {
        return owned(p);
    }
    let bn = base.unicode_len();
    if bn == 0 || base.get_char(bn - 1) == '/' {
        concat2(base, p)
    } else {
        concat3(base, "/", p)
    }
}

/// The word `json`.
pub open spec fn json_word() -> Seq<char> {
    seq!['j', 's', 'o', 'n']
}

/// The index of the last `c` in `s`, if there is one.
fn last_index(s: &str, c: char) -> (r: Option<usize>)
    ensures
        match r {
            Some(k) => k == last_index_of(s@, c),
            None => last_index_of(s@, c) == -1,
        },
{
    let n = s.unicode_len();
    let mut i: usize = n;
    assert(s@.take(n as int) =~= s@);
    while i > 0
        invariant
            i <= n,
            n == s@.len(),
            last_index_of(s@, c) == last_index_of(s@.take(i as int), c),
        decreases i,
    {
        assert(s@.take(i as int).drop_last() =~= s@.take(i - 1));
        if s.get_char(i - 1) == c {
            return Some(i - 1);
        }
        i = i - 1;
    }
    assert(s@.take(0) =~= Seq::<char>::empty());
    None
}

/// Whether the file name has the extension `json`.
pub fn has_json_extension(name: &str) -> (r: bool)
    ensures
        r == (extension_spec(name@) == Some(json_word())),
{
    proof {
        reveal_strlit("..");
        reveal_strlit("json");
        assert(".."@ =~= seq!['.', '.']);
        assert("json"@ =~= json_word());
    }
    if str_equal(name, "..") {
        return false;
    }
    match last_index(name, '.') {
        None => false,
        Some(k) => {
            if k == 0 {
                return false;
            }
            let n = name.unicode_len();
            proof {
                lemma_last_index_bound(name@, '.');
            }
            let ext = name.substring_char(k + 1, n);
            assert(ext@ =~= name@.skip(k + 1));
            str_equal(ext, "json")
        },
    }
}

/// The last index of `c` is -1 or a position inside `s`.
pub proof fn lemma_last_index_bound(s: Seq<char>, c: char)
    ensures
        -1 <= last_index_of(s, c) < s.len(),
    decreases s.len(),
{
    if s.len() > 0 && s.last() != c {
        lemma_last_index_bound(s.drop_last(), c);
    }
}

} // verus!

use vstd::prelude::*;

verus! {

/// `s` with every match of `pat`, taken left to right without overlap, replaced by `to`.
pub open spec fn replaced(s: Seq<char>, pat: Seq<char>, to: Seq<char>) -> Seq<char>
    decreases s.len(),
{
    if pat.len() == 0 || s.len() < pat.len() {
        s
    } else if s.subrange(0, pat.len() as int) == pat {
        to + replaced(s.subrange(pat.len() as int, s.len() as int), pat, to)
    } else {
        seq![s[0]] + replaced(s.drop_first(), pat, to)
    }
}

/// The prefix that Windows puts before a path to lift the length limit: `\\?\`.
pub open spec fn long_path_prefix() -> Seq<char> {
    seq!['\\', '\\', '?', '\\']
}

/// Whether `s` begins with `prefix`.
pub open spec fn starts_with(s: Seq<char>, prefix: Seq<char>) -> bool {
    s.len() >= prefix.len() && s.take(prefix.len() as int) == prefix
}

/// A path without its leading long-path prefix, if it has one.
pub open spec fn without_long_prefix(p: Seq<char>) -> Seq<char> {
    if starts_with(p, long_path_prefix()) {
        p.skip(long_path_prefix().len() as int)
    } else {
        p
    }
}

/// A path with its leading long-path prefix removed and every backslash turned
/// into a slash.
pub open spec fn cleaned(p: Seq<char>) -> Seq<char> {
    replaced(without_long_prefix(p), seq!['\\'], seq!['/'])
}

/// Relies on `str::strip_prefix` with a `&str` pattern: the rest of `s` when
/// `s` begins with `prefix`, else nothing.
#[verifier::external_body]
fn strip_prefix_of<'a>(s: &'a str, prefix: &str) -> (r: Option<&'a str>)
    ensures
        match r {
            Some(rest) => starts_with(s@, prefix@) && rest@ == s@.skip(prefix@.len() as int),
            None => !starts_with(s@, prefix@),
        },
{
    s.strip_prefix(prefix)
}

/// Relies on `str::replace`: each match of `from`, scanned left to right without
/// overlap, becomes `to`.
#[verifier::external_body]
fn replace_all(s: &str, from: &str, to: &str) -> (r: String)
    requires
        from@.len() > 0,
    ensures
        r@ == replaced(s@, from@, to@),
{
    s.replace(from, to)
}

/// Replacing every backslash by a slash leaves no backslash behind.
pub proof fn lemma_no_backslash_left(s: Seq<char>)
    ensures
        !replaced(s, seq!['\\'], seq!['/']).contains('\\'),
    decreases s.len(),
{
    let pat = seq!['\\'];
    let r = replaced(s, pat, seq!['/']);
    if s.len() >= 1 {
        let rest = replaced(s.drop_first(), pat, seq!['/']);
        lemma_no_backslash_left(s.drop_first());
        assert(s.subrange(1, s.len() as int) =~= s.drop_first());
        if s.subrange(0, 1) == pat {
            assert(r =~= seq!['/'] + rest);
        } else {
            assert(s[0] != '\\') by {
                if s[0] == '\\' {
                    assert(s.subrange(0, 1) =~= pat);
                }
            }
            assert(r =~= seq![s[0]] + rest);
        }
        assert forall|i: int| 0 <= i < r.len() implies r[i] != '\\' by {
            if i > 0 {
                assert(r[i] == rest[i - 1]);
            }
        }
    }
}

/// Removes a leading Windows long-path prefix and writes every separator as
/// `/`, so that paths look alike whatever platform produced them.
pub fn clean_path(path: String) -> (r: String)
    ensures
        r@ == cleaned(path@),
        !r@.contains('\\'),
{
    proof {
        reveal_strlit("\\\\?\\");
        reveal_strlit("\\");
        reveal_strlit("/");
        assert("\\\\?\\"@ =~= long_path_prefix());
        assert("\\"@ =~= seq!['\\']);
        assert("/"@ =~= seq!['/']);
    }
    let rest = match strip_prefix_of(path.as_str(), "\\\\?\\") {
        Some(rest) => rest,
        None => path.as_str(),
    };
    let r = replace_all(rest, "\\", "/");
    proof {
        lemma_no_backslash_left(rest@);
    }
    r
}

} // verus!

//! Character-level helpers: path normalization, canonical ids, module-specifier
//! matching and decimal rendering.
use vstd::prelude::*;
use vstd::string::{StrSliceExecFns, StringExecFns};

verus! {

/// A path with every backslash turned into a forward slash.
pub open spec fn normalize_path(s: Seq<char>) -> Seq<char> {
    Seq::new(s.len(), |i: int| if s[i] == '\\' { '/' } else { s[i] })
}

/// The canonical id of a call site: `{normalized path}::{scope path}`.
pub open spec fn canonical_id(file_path: Seq<char>, ast_path: Seq<char>) -> Seq<char> {
    normalize_path(file_path) + "::"@ + ast_path
}

pub open spec fn starts_with(s: Seq<char>, prefix: Seq<char>) -> bool {
    prefix.len() <= s.len() && s.subrange(0, prefix.len() as int) == prefix
}

/// A module specifier names a legacy alias: it is the alias itself or lies below
/// it, with a `/` boundary after the alias.
pub open spec fn matches_alias(specifier: Seq<char>, alias: Seq<char>) -> bool {
    specifier == alias || starts_with(specifier, alias + "/"@)
}

pub open spec fn is_legacy_specifier(specifier: Seq<char>, aliases: Seq<Seq<char>>) -> bool {
    exists|i: int| 0 <= i < aliases.len() && matches_alias(specifier, #[trigger] aliases[i])
}

/// The decimal digits of a number, most significant first.
pub open spec fn decimal(n: nat) -> Seq<char>
    decreases n,
{
    if n < 10 {
        seq![digit_char(n)]
    } else {
        decimal(n / 10).push(digit_char(n % 10))
    }
}

pub open spec fn digit_char(d: nat) -> char {
    if d == 0 {
        '0'
    } else if d == 1 {
        '1'
    } else if d == 2 {
        '2'
    } else if d == 3 {
        '3'
    } else if d == 4 {
        '4'
    } else if d == 5 {
        '5'
    } else if d == 6 {
        '6'
    } else if d == 7 {
        '7'
    } else if d == 8 {
        '8'
    } else {
        '9'
    }
}

/// Whether two strings hold the same characters.
pub fn str_eq(a: &str, b: &str) -> (r: bool)
    ensures
        r == (a@ == b@),
{
    let n = a.unicode_len();
    if n != b.unicode_len() {
        return false;
    }
    let mut i: usize = 0;
    while i < n
        invariant
            n == a@.len(),
            n == b@.len(),
            i <= n,
            a@.take(i as int) == b@.take(i as int),
        decreases n - i,
    {
        if a.get_char(i) != b.get_char(i) {
            assert(a@[i as int] != b@[i as int]);
            return false;
        }
        proof {
            assert(a@.take(i + 1) =~= a@.take(i as int).push(a@[i as int]));
            assert(b@.take(i + 1) =~= b@.take(i as int).push(b@[i as int]));
        }
        i = i + 1;
    }
    proof {
        assert(a@.take(n as int) =~= a@);
        assert(b@.take(n as int) =~= b@);
    }
    true
}

/// Whether `s` begins with `prefix` followed by `/`.
fn starts_with_dir(s: &str, prefix: &str) -> (r: bool)
    ensures
        r == starts_with(s@, prefix@ + "/"@),
{
    proof {
        reveal_strlit("/");
    }
    let n = prefix.unicode_len();
    let m = s.unicode_len();
    if m <= n {
        return false;
    }
    let mut i: usize = 0;
    while i < n
        invariant
            n == prefix@.len(),
            m == s@.len(),
            n + 1 <= m,
            i <= n,
            s@.take(i as int) == prefix@.take(i as int),
        decreases n - i,
    {
        if s.get_char(i) != prefix.get_char(i) {
            assert((prefix@ + "/"@)[i as int] == prefix@[i as int]);
            assert(s@.subrange(0, n + 1)[i as int] == s@[i as int]);
            return false;
        }
        proof {
            assert(s@.take(i + 1) =~= s@.take(i as int).push(s@[i as int]));
            assert(prefix@.take(i + 1) =~= prefix@.take(i as int).push(prefix@[i as int]));
        }
        i = i + 1;
    }
    let c = s.get_char(n);
    proof {
        assert(prefix@.take(n as int) =~= prefix@);
        assert((prefix@ + "/"@)[n as int] == '/');
        if c == '/' {
            assert(s@.subrange(0, n + 1) =~= prefix@ + "/"@);
        } else {
            assert(s@.subrange(0, n + 1)[n as int] == c);
        }
    }
    c == '/'
}

/// Whether a module specifier is one of the legacy aliases or lies below one.
pub fn is_legacy_specifier_exec(specifier: &str, aliases: &Vec<String>) -> (r: bool)
    ensures
        r == is_legacy_specifier(specifier@, aliases@.map_values(|a: String| a@)),
{
    let ghost av = aliases@.map_values(|a: String| a@);
    let mut i: usize = 0;
    while i < aliases.len()
        invariant
            i <= aliases@.len(),
            av == aliases@.map_values(|a: String| a@),
            forall|j: int| 0 <= j < i ==> !matches_alias(specifier@, #[trigger] av[j]),
        decreases aliases@.len() - i,
    {
        let alias = aliases[i].as_str();
        if str_eq(specifier, alias) || starts_with_dir(specifier, alias) {
            assert(matches_alias(specifier@, av[i as int]));
            return true;
        }
        i = i + 1;
    }
    false
}

/// Replaces every backslash with a forward slash.
pub fn normalize_path_exec(s: &str) -> (r: String)
    ensures
        r@ == normalize_path(s@),
{
    proof {
        reveal_strlit("/");
    }
    let n = s.unicode_len();
    let mut out = String::new();
    let mut i: usize = 0;
    while i < n
        invariant
            n == s@.len(),
            i <= n,
            out@ == normalize_path(s@).take(i as int),
        decreases n - i,
    {
        let c = s.get_char(i);
        let ghost before = out@;
        if c == '\\' {
            out.append("/");
            proof {
                reveal_strlit("/");
            }
            assert("/"@ =~= seq!['/']);
            assert(out@ =~= before.push('/'));
        } else {
            let one = s.substring_char(i, i + 1);
            assert(one@ =~= seq![c]);
            out.append(one);
            assert(out@ == before.push(c));
        }
        proof {
            assert(out@ =~= normalize_path(s@).take(i + 1));
        }
        i = i + 1;
    }
    proof {
        assert(normalize_path(s@).take(n as int) =~= normalize_path(s@));
    }
    out
}

/// Resolves the canonical id of a call site from its file path and scope path.
pub fn resolve_canonical_id(file_path: &str, ast_path: &str) -> (r: String)
    ensures
        r@ == canonical_id(file_path@, ast_path@),
{
    let mut id = normalize_path_exec(file_path);
    id.append("::");
    id.append(ast_path);
    id
}

fn digit_str(d: usize) -> (r: &'static str)
    requires
        d < 10,
    ensures
        r@ == seq![digit_char(d as nat)],
{
    proof {
        reveal_strlit("0");
        reveal_strlit("1");
        reveal_strlit("2");
        reveal_strlit("3");
        reveal_strlit("4");
        reveal_strlit("5");
        reveal_strlit("6");
        reveal_strlit("7");
        reveal_strlit("8");
        reveal_strlit("9");
    }
    if d == 0 {
        "0"
    } else if d == 1 {
        "1"
    } else if d == 2 {
        "2"
    } else if d == 3 {
        "3"
    } else if d == 4 {
        "4"
    } else if d == 5 {
        "5"
    } else if d == 6 {
        "6"
    } else if d == 7 {
        "7"
    } else if d == 8 {
        "8"
    } else {
        proof {
            assert(seq!['9'] =~= "9"@);
        }
        "9"
    }
}

/// Renders a number in decimal.
pub fn decimal_string(n: usize) -> (r: String)
    ensures
        r@ == decimal(n as nat),
    decreases n,
{
    if n < 10 {
        String::from_str(digit_str(n))
    } else {
        let mut s = decimal_string(n / 10);
        s.append(digit_str(n % 10));
        s
    }
}

} // verus!

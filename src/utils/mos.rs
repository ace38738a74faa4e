use vstd::prelude::*;

verus! {

pub const TEMP_ARCH_PATH: &'static str = "./temp_download";
pub const ARCH_TYPE: &'static str = "tar.zst";

/// `dir`, a separator, then `name`.
pub open spec fn joined(dir: Seq<char>, name: Seq<char>) -> Seq<char> {
    dir + seq!['/'] + name
}

pub fn join_path(dir: &str, name: &str) -> (r: String)
    ensures
        r@ == joined(dir@, name@),
{
    let mut s = String::from_str(dir);
    s.append("/");
    proof {
        reveal_strlit("/");
    }
    s.append(name);
    s
}

/// Directory of a program: `bin_path/name`.
pub fn format_program_path(program_name: &str, bin_path: &str) -> (r: String)
    ensures
        r@ == joined(bin_path@, program_name@),
{
    join_path(bin_path, program_name)
}

/// Entry of a program: `bin_path/name/entry`.
pub fn format_entry_path(program_name: &str, entry: &str, bin_path: &str) -> (r: String)
    ensures
        r@ == joined(joined(bin_path@, program_name@), entry@),
{
    let dir = format_program_path(program_name, bin_path);
    join_path(dir.as_str(), entry)
}

/// `k` is the position of the last separator of `s`.
pub open spec fn last_sep(s: Seq<char>, k: int) -> bool {
    0 <= k < s.len() && s[k] == '/' && forall|j: int| k < j < s.len() ==> s[j] != '/'
}

/// What comes before the last separator of `s`; nothing when it has none.
pub open spec fn parent_of(s: Seq<char>) -> Seq<char> {
    if exists|k: int| last_sep(s, k) {
        s.subrange(0, choose|k: int| last_sep(s, k))
    } else {
        Seq::empty()
    }
}

pub proof fn lemma_last_sep_unique(s: Seq<char>, a: int, b: int)
    requires
        last_sep(s, a),
        last_sep(s, b),
    ensures
        a == b,
{
}

/// What comes before the last separator of `s`.
pub fn parent_dir(s: &str) -> (r: String)
    ensures
        r@ == parent_of(s@),
{
    let n = s.unicode_len();
    let mut i: usize = n;
    while i > 0
        invariant
            n == s@.len(),
            i <= n,
            forall|j: int| i <= j < n ==> s@[j] != '/',
        decreases i,
    {
        if s.get_char(i - 1) == '/' {
            let k = i - 1;
            proof {
                assert(last_sep(s@, k as int));
                let c = choose|c: int| last_sep(s@, c);
                lemma_last_sep_unique(s@, c, k as int);
            }
            return String::from_str(s.substring_char(0, k));
        }
        i = i - 1;
    }
    proof {
        reveal_strlit("");
        assert(!exists|k: int| last_sep(s@, k));
    }
    String::from_str("")
}

/// Working directory of a custom program: the directory of its entry.
pub fn format_entry_dir(program_name: &str, entry: &str, bin_path: &str) -> (r: String)
    ensures
        r@ == parent_of(joined(joined(bin_path@, program_name@), entry@)),
{
    let full = format_entry_path(program_name, entry, bin_path);
    parent_dir(full.as_str())
}

/// Staging path of a downloaded archive: `./temp_download/<name>.tar.zst`.
pub fn format_temp_arch_path(arch_name: &str) -> (r: String)
    ensures
        r@ == joined(TEMP_ARCH_PATH@, arch_name@) + seq!['.'] + ARCH_TYPE@,
{
    let mut s = join_path(TEMP_ARCH_PATH, arch_name);
    s.append(".");
    proof {
        reveal_strlit(".");
    }
    s.append(ARCH_TYPE);
    s
}

/// Asset directory of a program: `bin_path/name/asset`.
pub fn format_asset_path(program_name: &str, bin_path: &str) -> (r: String)
    ensures
        r@ == joined(joined(bin_path@, program_name@), "asset"@),
{
    let dir = format_program_path(program_name, bin_path);
    join_path(dir.as_str(), "asset")
}

/// The pieces of `s` between single spaces, as `str::split(" ")` gives them:
/// two spaces in a row give an empty piece.
pub open spec fn split_spaces(s: Seq<char>) -> Seq<Seq<char>>
    decreases s.len(),
{
    if s.len() == 0 {
        seq![Seq::empty()]
    } else {
        let p = split_spaces(s.drop_last());
        if s.last() == ' ' {
            p.push(Seq::empty())
        } else {
            p.update(p.len() - 1, p.last().push(s.last()))
        }
    }
}

pub proof fn lemma_split_spaces_nonempty(s: Seq<char>)
    ensures
        split_spaces(s).len() >= 1,
    decreases s.len(),
{
    if s.len() > 0 {
        lemma_split_spaces_nonempty(s.drop_last());
    }
}

pub open spec fn string_views(v: Seq<String>) -> Seq<Seq<char>> {
    v.map_values(|p: String| p@)
}

/// Splits a command-line fragment on single spaces.
pub fn split_args(s: &str) -> (r: Vec<String>)
    ensures
        string_views(r@) == split_spaces(s@),
{
    let n = s.unicode_len();
    let mut pieces: Vec<String> = Vec::new();
    let mut start: usize = 0;
    let mut i: usize = 0;
    assert(s@.subrange(0, 0) =~= Seq::<char>::empty());
    assert(string_views(pieces@).push(s@.subrange(0, 0)) =~= split_spaces(s@.subrange(0, 0)));
    while i < n
        invariant
            n == s@.len(),
            start <= i <= n,
            string_views(pieces@).push(s@.subrange(start as int, i as int)) == split_spaces(s@.subrange(0, i as int)),
        decreases n - i,
    {
        let c = s.get_char(i);
        let ghost pre = s@.subrange(0, i as int);
        let ghost nxt = s@.subrange(0, i as int + 1);
        assert(nxt.drop_last() =~= pre);
        assert(nxt.last() == c);
        proof {
            lemma_split_spaces_nonempty(pre);
        }
        if c == ' ' {
            let ghost cur = s@.subrange(start as int, i as int);
            let ghost p = split_spaces(pre);
            let ghost old_views = string_views(pieces@);
            assert(p == old_views.push(cur));
            assert(split_spaces(nxt) == p.push(Seq::<char>::empty()));
            let piece = String::from_str(s.substring_char(start, i));
            pieces.push(piece);
            assert(string_views(pieces@) =~= old_views.push(cur));
            start = i + 1;
            assert(s@.subrange(start as int, i as int + 1) =~= Seq::<char>::empty());
            assert(string_views(pieces@).push(s@.subrange(start as int, i as int + 1)) =~= split_spaces(nxt));
        } else {
            let ghost cur = s@.subrange(start as int, i as int);
            let ghost p = split_spaces(pre);
            assert(p == string_views(pieces@).push(cur));
            assert(split_spaces(nxt) == p.update(p.len() - 1, p.last().push(c)));
            assert(s@.subrange(start as int, i as int + 1) =~= cur.push(c));
            assert(p.last() == cur);
            assert(string_views(pieces@).push(cur.push(c)) =~= p.update(p.len() - 1, cur.push(c)));
            assert(split_spaces(nxt) == string_views(pieces@).push(cur.push(c)));
            assert(s@.subrange(start as int, i as int + 1) == cur.push(c));
        }
        i = i + 1;
    }
    let last = String::from_str(s.substring_char(start, n));
    pieces.push(last);
    assert(s@.subrange(0, n as int) =~= s@);
    assert(string_views(pieces@) =~= split_spaces(s@));
    pieces
}

pub uninterp spec fn sha256_of(data: Seq<u8>) -> Seq<u8>;

/// Longest input SHA-256 takes: its bit length must fit in 64 bits.
pub const SHA256_MAX_INPUT: u64 = 0x2000_0000_0000_0000;

/// Relies on ring's `digest::digest` with `SHA256`: the SHA-256 digest of
/// `data`, 32 bytes, a function of the bytes alone. ring panics when the
/// bit length of the input overflows 64 bits.
#[verifier::external_body]
pub fn hash_vec(data: &Vec<u8>) -> (r: Vec<u8>)
    requires
        data@.len() < SHA256_MAX_INPUT,
    ensures
        r@ == sha256_of(data@),
        r@.len() == 32,
{
    ring::digest::digest(&ring::digest::SHA256, data.as_slice()).as_ref().to_vec()
}

} // verus!

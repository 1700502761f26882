//! Textual Windows file paths, as held by the notification and staging code.
//!
//! The toast features run on Windows, so a path here follows the Windows
//! rules of `std::path`: an optional prefix (`C:`, `\\server\share`,
//! `\\?\...`, `\\.\...`), an optional root, and components separated by `/`
//! or `\` (by `\` alone after a verbatim `\\?\` prefix). A path is a plain
//! string and nothing here touches the disk.

use vstd::prelude::*;
use vstd::string::*;

use crate::text::{chars_of, push_char, string_from_range};

verus! {

/// The kinds of path prefix.
#[derive(PartialEq, Eq, Structural, Clone, Copy)]
pub enum PrefixKind {
    /// `\\?\name`
    Verbatim,
    /// `\\?\UNC\server\share`
    VerbatimUnc,
    /// `\\?\C:`
    VerbatimDisk,
    /// `\\.\name`
    DeviceNs,
    /// `\\server\share`
    Unc,
    /// `C:`
    Disk,
}

/// Spec: a separator anywhere outside a verbatim path.
pub open spec fn is_sep(c: char) -> bool {
    c == '/' || c == '\\'
}

/// Spec: a separator, where only `\` separates inside a verbatim path.
pub open spec fn is_sep_in(c: char, verbatim: bool) -> bool {
    c == '\\' || (!verbatim && c == '/')
}

/// Spec: number of leading characters of `s` before the first separator.
pub open spec fn run_len(s: Seq<char>, verbatim: bool) -> nat
    decreases s.len(),
{
    if s.len() == 0 || is_sep_in(s[0], verbatim) {
        0
    } else {
        1 + run_len(s.drop_first(), verbatim)
    }
}

/// Spec: the text up to the first separator, and what follows that separator.
pub open spec fn next_field(s: Seq<char>, verbatim: bool) -> (Seq<char>, Seq<char>) {
    let k = run_len(s, verbatim) as int;
    if k < s.len() {
        (s.take(k), s.skip(k + 1))
    } else {
        (s, seq![])
    }
}

/// Spec: an ASCII letter, as a drive letter must be.
pub open spec fn is_drive_letter(c: char) -> bool {
    ('a' <= c && c <= 'z') || ('A' <= c && c <= 'Z')
}

/// Spec: the code of a drive letter in upper case.
pub open spec fn drive_code(c: char) -> u32 {
    if 'a' <= c && c <= 'z' {
        ((c as u32) - 32) as u32
    } else {
        c as u32
    }
}

/// Spec: the prefix at the start of `s`: its kind, its length, its text
/// fields (the name, or the server and share) and, for a drive, the drive
/// letter's upper-case code. Two prefixes are the same prefix exactly when
/// these values agree. Within the first eight characters `/` is read as `\`
/// when the prefix is recognised, but a `/` among the first four rules out a
/// verbatim prefix.
#[verifier::opaque]
pub open spec fn parse_prefix(s: Seq<char>) -> Option<(PrefixKind, nat, Seq<char>, Seq<char>, u32)> {
    if s.len() >= 2 && is_sep(s[0]) && is_sep(s[1]) {
        if s.len() >= 4 && s[2] == '?' && s[0] == '\\' && s[1] == '\\' && s[3] == '\\' {
            let r = s.skip(4);
            if r.len() >= 4 && r[0] == 'U' && r[1] == 'N' && r[2] == 'C' && is_sep(r[3]) {
                let (server, rest) = next_field(r.skip(4), true);
                let (share, _tail) = next_field(rest, true);
                let len = 8 + server.len() + if share.len() > 0 {
                    1 + share.len()
                } else {
                    0
                };
                Some((PrefixKind::VerbatimUnc, len as nat, server, share, 0u32))
            } else {
                let (name, _tail) = next_field(r, true);
                if name.len() == 2 && is_drive_letter(name[0]) && name[1] == ':' {
                    Some((PrefixKind::VerbatimDisk, 6nat, seq![], seq![], drive_code(name[0])))
                } else {
                    Some((PrefixKind::Verbatim, (4 + name.len()) as nat, name, seq![], 0u32))
                }
            }
        } else if s.len() >= 4 && s[2] == '.' && is_sep(s[3]) {
            let (name, _tail) = next_field(s.skip(4), false);
            Some((PrefixKind::DeviceNs, (4 + name.len()) as nat, name, seq![], 0u32))
        } else {
            let (server, rest) = next_field(s.skip(2), false);
            let (share, _tail) = next_field(rest, false);
            if server.len() > 0 && share.len() > 0 {
                Some(
                    (
                        PrefixKind::Unc,
                        (3 + server.len() + share.len()) as nat,
                        server,
                        share,
                        0u32,
                    ),
                )
            } else {
                None
            }
        }
    } else if s.len() >= 2 && is_drive_letter(s[0]) && s[1] == ':' {
        Some((PrefixKind::Disk, 2nat, seq![], seq![], drive_code(s[0])))
    } else {
        None
    }
}

/// Spec: the length of the prefix (0 without one).
pub open spec fn prefix_len(s: Seq<char>) -> nat {
    match parse_prefix(s) {
        Some(p) => p.1,
        None => 0,
    }
}

/// Spec: the path has a verbatim (`\\?\`) prefix.
pub open spec fn is_verbatim(s: Seq<char>) -> bool {
    match parse_prefix(s) {
        Some(p) => p.0 == PrefixKind::Verbatim || p.0 == PrefixKind::VerbatimUnc || p.0
            == PrefixKind::VerbatimDisk,
        None => false,
    }
}

/// Spec: the prefix is a drive (`C:` or `\\?\C:`).
pub open spec fn is_drive_prefix(s: Seq<char>) -> bool {
    match parse_prefix(s) {
        Some(p) => p.0 == PrefixKind::Disk || p.0 == PrefixKind::VerbatimDisk,
        None => false,
    }
}

/// Spec: a separator follows the prefix.
pub open spec fn physical_root(s: Seq<char>) -> bool {
    prefix_len(s) < s.len() && is_sep(s[prefix_len(s) as int])
}

/// Spec: the path is rooted, by a separator or by a prefix other than a bare drive.
pub open spec fn has_root(s: Seq<char>) -> bool {
    physical_root(s) || (parse_prefix(s) is Some && parse_prefix(s).unwrap().0
        != PrefixKind::Disk)
}

/// Spec: an unrooted path whose text after the prefix starts with a `.` component.
pub open spec fn cur_dir(s: Seq<char>) -> bool {
    let p = prefix_len(s) as int;
    !has_root(s) && p < s.len() && s[p] == '.' && (p + 1 == s.len() || is_sep(s[p + 1]))
}

/// Spec: where the components after prefix, root and leading `.` begin.
pub open spec fn body_start(s: Seq<char>) -> nat {
    prefix_len(s) + (if physical_root(s) {
        1nat
    } else {
        0nat
    }) + (if cur_dir(s) {
        1nat
    } else {
        0nat
    })
}

/// Spec: the text holding the path's normal components.
pub open spec fn body(s: Seq<char>) -> Seq<char> {
    s.skip(body_start(s) as int)
}

/// Spec: the path's component list holds a root directory.
pub open spec fn root_comp(s: Seq<char>) -> bool {
    physical_root(s) || (parse_prefix(s) is Some && parse_prefix(s).unwrap().0
        != PrefixKind::Disk && !is_verbatim(s))
}

/// Spec: the path's component list starts with a `.` component.
pub open spec fn lead_cur_comp(s: Seq<char>) -> bool {
    parse_prefix(s) is None && cur_dir(s)
}

/// Spec: the pieces between separators that count as components: empty
/// pieces never do, and `.` does only in a verbatim path.
pub open spec fn comps_of(s: Seq<char>, verbatim: bool) -> Seq<Seq<char>>
    decreases s.len(),
{
    if s.len() == 0 {
        seq![]
    } else if is_sep_in(s[0], verbatim) {
        comps_of(s.drop_first(), verbatim)
    } else {
        let k = run_len(s, verbatim) as int;
        if 0 < k <= s.len() {
            let c = s.take(k);
            if !verbatim && c == seq!['.'] {
                comps_of(s.skip(k), verbatim)
            } else {
                seq![c] + comps_of(s.skip(k), verbatim)
            }
        } else {
            seq![]
        }
    }
}

/// Spec: the components after prefix, root and leading `.`.
pub open spec fn components(s: Seq<char>) -> Seq<Seq<char>> {
    comps_of(body(s), is_verbatim(s))
}

/// Spec: two paths have the same component lists (`Path == Path`): the same
/// prefix, both or neither rooted, both or neither starting with `.`, and
/// the same components after that.
pub open spec fn paths_equal(a: Seq<char>, b: Seq<char>) -> bool {
    &&& parse_prefix(a) == parse_prefix(b)
    &&& root_comp(a) == root_comp(b)
    &&& lead_cur_comp(a) == lead_cur_comp(b)
    &&& components(a) == components(b)
}

/// Spec: the last component of the path when it is a normal one (`Path::file_name`).
pub open spec fn file_name(s: Seq<char>) -> Option<Seq<char>> {
    let c = components(s);
    if c.len() > 0 && c.last() != seq!['.'] && c.last() != seq!['.', '.'] {
        Some(c.last())
    } else {
        None
    }
}

/// Spec: index of the last separator in `s`.
pub open spec fn last_sep(s: Seq<char>, verbatim: bool) -> Option<int>
    decreases s.len(),
{
    if s.len() == 0 {
        None
    } else if is_sep_in(s.last(), verbatim) {
        Some(s.len() - 1)
    } else {
        last_sep(s.drop_last(), verbatim)
    }
}

/// Spec: the piece after the last separator.
pub open spec fn last_piece(s: Seq<char>, verbatim: bool) -> Seq<char> {
    match last_sep(s, verbatim) {
        Some(k) => s.skip(k + 1),
        None => s,
    }
}

/// Spec: `s` without its last piece and the separator before it.
pub open spec fn strip_back(s: Seq<char>, verbatim: bool) -> Seq<char> {
    match last_sep(s, verbatim) {
        Some(k) => if 0 <= k < s.len() {
            s.take(k)
        } else {
            seq![]
        },
        None => seq![],
    }
}

/// Spec: a piece that is a component.
pub open spec fn is_real(piece: Seq<char>, verbatim: bool) -> bool {
    piece.len() > 0 && (verbatim || piece != seq!['.'])
}

/// Spec: `s` without trailing pieces that are no components.
pub open spec fn trim_right(s: Seq<char>, verbatim: bool) -> Seq<char>
    decreases s.len(),
{
    if s.len() > 0 && !is_real(last_piece(s, verbatim), verbatim) {
        trim_right(strip_back(s, verbatim), verbatim)
    } else {
        s
    }
}

/// Spec: the path without its last component (`Path::parent`); `None` when
/// nothing but a prefix or a root is left to remove.
pub open spec fn parent(s: Seq<char>) -> Option<Seq<char>> {
    let bs = body_start(s) as int;
    let v = is_verbatim(s);
    let t = trim_right(s.skip(bs), v);
    if t.len() > 0 {
        Some(s.take(bs) + trim_right(strip_back(t, v), v))
    } else if root_comp(s) {
        None
    } else if lead_cur_comp(s) {
        Some(seq![])
    } else {
        None
    }
}

/// Spec: a file name that is one normal component.
pub open spec fn is_plain_name(name: Seq<char>) -> bool {
    &&& name.len() > 0
    &&& forall|j: int| 0 <= j < name.len() ==> !is_sep(#[trigger] name[j])
    &&& name != seq!['.']
    &&& name != seq!['.', '.']
    &&& !(name.len() >= 2 && is_drive_letter(name[0]) && name[1] == ':')
}

/// Spec: components written one after another, each but a first one without
/// `lead` preceded by `\`.
pub open spec fn join_comps(c: Seq<Seq<char>>, lead: bool) -> Seq<char>
    decreases c.len(),
{
    if c.len() == 0 {
        seq![]
    } else {
        join_comps(c.drop_last(), lead) + (if c.len() > 1 || lead {
            seq!['\\']
        } else {
            seq![]
        }) + c.last()
    }
}

/// Spec: `name` appended to `base` as a new component (`Path::join` with a
/// plain file name): a verbatim base is rewritten from its components, any
/// other base gets a `\` unless it ends in a separator or is a bare drive.
pub open spec fn join(base: Seq<char>, name: Seq<char>) -> Seq<char> {
    if is_verbatim(base) {
        let p = base.take(prefix_len(base) as int);
        let head = if physical_root(base) {
            p.push('\\')
        } else {
            p
        };
        let lead = !physical_root(base) && !is_drive_prefix(base);
        head + join_comps(components(base).push(name), lead)
    } else {
        let need_sep = base.len() > 0 && !is_sep(base.last()) && !(is_drive_prefix(base)
            && prefix_len(base) == base.len());
        if need_sep {
            base.push('\\') + name
        } else {
            base + name
        }
    }
}

} // verus!

verus! {

fn is_sep_exec(c: char) -> (r: bool)
    ensures
        r == is_sep(c),
{
    c == '/' || c == '\\'
}

fn is_sep_in_exec(c: char, verbatim: bool) -> (r: bool)
    ensures
        r == is_sep_in(c, verbatim),
{
    c == '\\' || (!verbatim && c == '/')
}

fn is_drive_letter_exec(c: char) -> (r: bool)
    ensures
        r == is_drive_letter(c),
{
    ('a' <= c && c <= 'z') || ('A' <= c && c <= 'Z')
}

fn drive_code_exec(c: char) -> (r: u32)
    ensures
        r == drive_code(c),
{
    let x = c as u32;
    if 'a' <= c && c <= 'z' {
        x - 32
    } else {
        x
    }
}

proof fn lemma_run_len(s: Seq<char>, verbatim: bool, j: int)
    requires
        0 <= j <= s.len(),
        forall|m: int| 0 <= m < j ==> !is_sep_in(s[m], verbatim),
        j == s.len() || is_sep_in(s[j], verbatim),
    ensures
        run_len(s, verbatim) == j,
    decreases j,
{
    if j > 0 {
        lemma_run_len(s.drop_first(), verbatim, j - 1);
    }
}

/// End of the field starting at `start`: the index of the next separator, or the end.
fn field_end(cs: &Vec<char>, start: usize, verbatim: bool) -> (e: usize)
    requires
        start <= cs.len(),
    ensures
        start <= e <= cs.len(),
        e - start == run_len(cs@.skip(start as int), verbatim),
        forall|m: int| start <= m < e ==> !is_sep_in(cs@[m], verbatim),
        e < cs.len() ==> is_sep_in(cs@[e as int], verbatim),
{
    let mut e = start;
    while e < cs.len() && !is_sep_in_exec(cs[e], verbatim)
        invariant
            start <= e <= cs.len(),
            forall|m: int| start <= m < e ==> !is_sep_in(cs@[m], verbatim),
        decreases cs.len() - e,
    {
        e += 1;
    }
    proof {
        let r = cs@.skip(start as int);
        assert forall|m: int| 0 <= m < e - start implies !is_sep_in(r[m], verbatim) by {
            assert(r[m] == cs@[start + m]);
        }
        if e < cs.len() {
            assert(r[e - start] == cs@[e as int]);
        }
        lemma_run_len(r, verbatim, e - start);
    }
    e
}

/// The next field of `cs[start..]`: its end, and where the text after its separator starts.
fn next_field_at(cs: &Vec<char>, start: usize, verbatim: bool) -> (r: (usize, usize))
    requires
        start <= cs.len(),
    ensures
        start <= r.0 <= r.1 <= cs.len(),
        next_field(cs@.skip(start as int), verbatim) == (
            cs@.subrange(start as int, r.0 as int),
            cs@.skip(r.1 as int),
        ),
        r.1 == r.0 || r.1 == r.0 + 1,
        r.1 < cs.len() ==> r.1 == r.0 + 1,
{
    let e = field_end(cs, start, verbatim);
    let ghost s = cs@.skip(start as int);
    if e < cs.len() {
        proof {
            assert(s.take(e - start) =~= cs@.subrange(start as int, e as int));
            assert(s.skip(e - start + 1) =~= cs@.skip(e + 1));
        }
        (e, e + 1)
    } else {
        proof {
            assert(s =~= cs@.subrange(start as int, e as int));
            assert(cs@.skip(e as int) =~= Seq::<char>::empty());
        }
        (e, e)
    }
}

/// The parsed prefix of a path.
struct PrefixParts {
    kind: PrefixKind,
    len: usize,
    first: Vec<char>,
    second: Vec<char>,
    code: u32,
}

spec fn parts_view(p: PrefixParts) -> (PrefixKind, nat, Seq<char>, Seq<char>, u32) {
    (p.kind, p.len as nat, p.first@, p.second@, p.code)
}

fn sub_chars(cs: &Vec<char>, from: usize, to: usize) -> (r: Vec<char>)
    requires
        from <= to <= cs.len(),
    ensures
        r@ == cs@.subrange(from as int, to as int),
{
    let mut r: Vec<char> = Vec::new();
    let mut i = from;
    while i < to
        invariant
            from <= i <= to <= cs.len(),
            r@ == cs@.subrange(from as int, i as int),
        decreases to - i,
    {
        r.push(cs[i]);
        i += 1;
    }
    r
}

fn parse_prefix_exec(cs: &Vec<char>) -> (r: Option<PrefixParts>)
    ensures
        match r {
            Some(p) => parse_prefix(cs@) == Some(parts_view(p)) && p.len <= cs.len(),
            None => parse_prefix(cs@) is None,
        },
{
    proof {
        reveal(parse_prefix);
    }
    let n = cs.len();
    if n >= 2 && is_sep_exec(cs[0]) && is_sep_exec(cs[1]) {
        if n >= 4 && cs[2] == '?' && cs[0] == '\\' && cs[1] == '\\' && cs[3] == '\\' {
            let ghost r = cs@.skip(4);
            if n >= 8 && cs[4] == 'U' && cs[5] == 'N' && cs[6] == 'C' && is_sep_exec(cs[7]) {
                proof {
                    assert(r.skip(4) =~= cs@.skip(8));
                }
                let (e1, s1) = next_field_at(cs, 8, true);
                let (e2, _s2) = next_field_at(cs, s1, true);
                let len = if e2 > s1 {
                    e2
                } else {
                    e1
                };
                Some(
                    PrefixParts {
                        kind: PrefixKind::VerbatimUnc,
                        len,
                        first: sub_chars(cs, 8, e1),
                        second: sub_chars(cs, s1, e2),
                        code: 0,
                    },
                )
            } else {
                proof {
                    if r.len() >= 4 && r[0] == 'U' && r[1] == 'N' && r[2] == 'C' && is_sep(r[3]) {
                        assert(r[0] == cs@[4] && r[1] == cs@[5] && r[2] == cs@[6] && r[3]
                            == cs@[7]);
                    }
                }
                let (e1, _s1) = next_field_at(cs, 4, true);
                if e1 == 6 && is_drive_letter_exec(cs[4]) && cs[5] == ':' {
                    let code = drive_code_exec(cs[4]);
                    proof {
                        let name = cs@.subrange(4, 6);
                        assert(name[0] == cs@[4] && name[1] == cs@[5]);
                    }
                    Some(
                        PrefixParts {
                            kind: PrefixKind::VerbatimDisk,
                            len: 6,
                            first: Vec::new(),
                            second: Vec::new(),
                            code,
                        },
                    )
                } else {
                    proof {
                        let name = cs@.subrange(4, e1 as int);
                        if name.len() == 2 {
                            assert(name[0] == cs@[4] && name[1] == cs@[5]);
                        }
                    }
                    Some(
                        PrefixParts {
                            kind: PrefixKind::Verbatim,
                            len: e1,
                            first: sub_chars(cs, 4, e1),
                            second: Vec::new(),
                            code: 0,
                        },
                    )
                }
            }
        } else if n >= 4 && cs[2] == '.' && is_sep_exec(cs[3]) {
            let (e1, _s1) = next_field_at(cs, 4, false);
            Some(
                PrefixParts {
                    kind: PrefixKind::DeviceNs,
                    len: e1,
                    first: sub_chars(cs, 4, e1),
                    second: Vec::new(),
                    code: 0,
                },
            )
        } else {
            let (e1, s1) = next_field_at(cs, 2, false);
            let (e2, _s2) = next_field_at(cs, s1, false);
            if e1 > 2 && e2 > s1 {
                Some(
                    PrefixParts {
                        kind: PrefixKind::Unc,
                        len: e2,
                        first: sub_chars(cs, 2, e1),
                        second: sub_chars(cs, s1, e2),
                        code: 0,
                    },
                )
            } else {
                None
            }
        }
    } else if n >= 2 && is_drive_letter_exec(cs[0]) && cs[1] == ':' {
        let code = drive_code_exec(cs[0]);
        Some(
            PrefixParts {
                kind: PrefixKind::Disk,
                len: 2,
                first: Vec::new(),
                second: Vec::new(),
                code,
            },
        )
    } else {
        None
    }
}

} // verus!

verus! {

/// The layout of a path: its prefix, root and leading `.`.
struct Shape {
    prefix: Option<PrefixParts>,
    plen: usize,
    verbatim: bool,
    drive: bool,
    physical_root: bool,
    root_comp: bool,
    lead_cur: bool,
    body_start: usize,
}

fn shape_of(cs: &Vec<char>) -> (r: Shape)
    ensures
        match r.prefix {
            Some(p) => parse_prefix(cs@) == Some(parts_view(p)),
            None => parse_prefix(cs@) is None,
        },
        r.plen == prefix_len(cs@),
        r.verbatim == is_verbatim(cs@),
        r.drive == is_drive_prefix(cs@),
        r.physical_root == physical_root(cs@),
        r.root_comp == root_comp(cs@),
        r.lead_cur == lead_cur_comp(cs@),
        r.body_start == body_start(cs@),
        r.body_start <= cs.len(),
        r.plen <= r.body_start,
{
    let prefix = parse_prefix_exec(cs);
    let n = cs.len();
    let (plen, verbatim, drive, implicit) = match &prefix {
        Some(p) => (
            p.len,
            p.kind == PrefixKind::Verbatim || p.kind == PrefixKind::VerbatimUnc || p.kind
                == PrefixKind::VerbatimDisk,
            p.kind == PrefixKind::Disk || p.kind == PrefixKind::VerbatimDisk,
            p.kind != PrefixKind::Disk,
        ),
        None => (0, false, false, false),
    };
    let phys = plen < n && is_sep_exec(cs[plen]);
    let rooted = phys || implicit;
    let cur = !rooted && plen < n && cs[plen] == '.' && (plen + 1 == n || is_sep_exec(
        cs[plen + 1],
    ));
    let root_comp = phys || (implicit && !verbatim);
    let lead_cur = prefix.is_none() && cur;
    let body_start = plen + (if phys {
        1
    } else {
        0
    }) + (if cur {
        1
    } else {
        0
    });
    Shape {
        prefix,
        plen,
        verbatim,
        drive,
        physical_root: phys,
        root_comp,
        lead_cur,
        body_start,
    }
}

/// Spec: the views of a list of character vectors.
pub open spec fn views_of(v: Seq<Vec<char>>) -> Seq<Seq<char>> {
    v.map_values(|x: Vec<char>| x@)
}

/// The components of `cs[start..]` (see `comps_of`).
fn comps_from(cs: &Vec<char>, start: usize, verbatim: bool) -> (comps: Vec<Vec<char>>)
    requires
        start <= cs.len(),
    ensures
        views_of(comps@) == comps_of(cs@.skip(start as int), verbatim),
{
    let n = cs.len();
    let mut comps: Vec<Vec<char>> = Vec::new();
    let mut i: usize = start;
    while i < n
        invariant
            start <= i <= n,
            n == cs@.len(),
            comps_of(cs@.skip(start as int), verbatim) == views_of(comps@) + comps_of(
                cs@.skip(i as int),
                verbatim,
            ),
        decreases n - i,
    {
        let ghost rest = cs@.skip(i as int);
        if is_sep_in_exec(cs[i], verbatim) {
            proof {
                assert(rest.drop_first() =~= cs@.skip(i + 1));
            }
            i += 1;
        } else {
            let j = field_end(cs, i, verbatim);
            let run = sub_chars(cs, i, j);
            proof {
                assert(rest[0] == cs@[i as int]);
                assert(j > i);
                assert(rest.take(j - i) =~= run@);
                assert(rest.skip(j - i) =~= cs@.skip(j as int));
            }
            if verbatim || !(run.len() == 1 && run[0] == '.') {
                let ghost before = comps@;
                comps.push(run);
                proof {
                    assert(views_of(comps@) =~= views_of(before) + seq![comps@.last()@]);
                    assert(views_of(before) + (seq![rest.take(j - i)] + comps_of(
                        cs@.skip(j as int),
                        verbatim,
                    )) =~= views_of(comps@) + comps_of(cs@.skip(j as int), verbatim));
                }
            } else {
                proof {
                    assert(run@ =~= seq!['.']);
                }
            }
            i = j;
        }
    }
    proof {
        assert(cs@.skip(n as int) =~= Seq::<char>::empty());
        assert(views_of(comps@) + Seq::<Seq<char>>::empty() =~= views_of(comps@));
    }
    comps
}

fn chars_equal(a: &Vec<char>, b: &Vec<char>) -> (r: bool)
    ensures
        r == (a@ == b@),
{
    if a.len() != b.len() {
        return false;
    }
    let mut i: usize = 0;
    while i < a.len()
        invariant
            i <= a.len() == b.len(),
            forall|j: int| 0 <= j < i ==> a@[j] == b@[j],
        decreases a.len() - i,
    {
        if a[i] != b[i] {
            return false;
        }
        i += 1;
    }
    proof {
        assert(a@ =~= b@);
    }
    true
}

fn comp_lists_equal(a: &Vec<Vec<char>>, b: &Vec<Vec<char>>) -> (r: bool)
    ensures
        r == (views_of(a@) == views_of(b@)),
{
    if a.len() != b.len() {
        proof {
            assert(views_of(a@).len() != views_of(b@).len());
        }
        return false;
    }
    let mut i: usize = 0;
    while i < a.len()
        invariant
            i <= a.len() == b.len(),
            forall|j: int| 0 <= j < i ==> a@[j]@ == b@[j]@,
        decreases a.len() - i,
    {
        if !chars_equal(&a[i], &b[i]) {
            proof {
                assert(views_of(a@)[i as int] != views_of(b@)[i as int]);
            }
            return false;
        }
        i += 1;
    }
    proof {
        assert(views_of(a@) =~= views_of(b@));
    }
    true
}

fn prefixes_equal(a: &Option<PrefixParts>, b: &Option<PrefixParts>) -> (r: bool)
    ensures
        r == (match (a, b) {
            (Some(x), Some(y)) => parts_view(*x) == parts_view(*y),
            (None, None) => true,
            _ => false,
        }),
{
    match (a, b) {
        (Some(x), Some(y)) => x.kind == y.kind && x.len == y.len && chars_equal(&x.first, &y.first)
            && chars_equal(&x.second, &y.second) && x.code == y.code,
        (None, None) => true,
        _ => false,
    }
}

/// True when two paths have the same component lists (`Path == Path`).
pub fn path_eq(a: &str, b: &str) -> (r: bool)
    ensures
        r == paths_equal(a@, b@),
{
    let ac = chars_of(a);
    let bc = chars_of(b);
    let sa = shape_of(&ac);
    let sb = shape_of(&bc);
    if !prefixes_equal(&sa.prefix, &sb.prefix) {
        return false;
    }
    if sa.root_comp != sb.root_comp || sa.lead_cur != sb.lead_cur {
        return false;
    }
    let ca = comps_from(&ac, sa.body_start, sa.verbatim);
    let cb = comps_from(&bc, sb.body_start, sb.verbatim);
    comp_lists_equal(&ca, &cb)
}

/// The last component of the path when it is a normal one (`Path::file_name`).
pub fn path_file_name(path: &str) -> (r: Option<String>)
    ensures
        r is Some <==> file_name(path@) is Some,
        r matches Some(n) ==> Some(n@) == file_name(path@),
{
    let cs = chars_of(path);
    let sh = shape_of(&cs);
    let comps = comps_from(&cs, sh.body_start, sh.verbatim);
    let k = comps.len();
    if k == 0 {
        return None;
    }
    let last = &comps[k - 1];
    proof {
        assert(views_of(comps@).last() == last@);
    }
    if (last.len() == 1 && last[0] == '.') || (last.len() == 2 && last[0] == '.' && last[1]
        == '.') {
        proof {
            if last.len() == 1 {
                assert(last@ =~= seq!['.']);
            } else {
                assert(last@ =~= seq!['.', '.']);
            }
        }
        return None;
    }
    proof {
        if last@ == seq!['.'] {
            assert(last@[0] == '.');
        }
        if last@ == seq!['.', '.'] {
            assert(last@[0] == '.' && last@[1] == '.');
        }
    }
    Some(string_from_range(last, 0, last.len()))
}

} // verus!

verus! {

proof fn lemma_last_sep(s: Seq<char>, verbatim: bool)
    ensures
        last_sep(s, verbatim) matches Some(k) ==> {
            &&& 0 <= k < s.len()
            &&& is_sep_in(s[k], verbatim)
            &&& forall|j: int| k < j < s.len() ==> !is_sep_in(s[j], verbatim)
        },
        last_sep(s, verbatim) is None ==> forall|j: int|
            0 <= j < s.len() ==> !is_sep_in(s[j], verbatim),
    decreases s.len(),
{
    if s.len() > 0 && !is_sep_in(s.last(), verbatim) {
        let d = s.drop_last();
        lemma_last_sep(d, verbatim);
        assert forall|j: int| 0 <= j < d.len() implies d[j] == s[j] by {}
    }
}

/// Index of the last separator in `cs[from..to]`.
fn last_sep_between(cs: &Vec<char>, from: usize, to: usize, verbatim: bool) -> (r: Option<usize>)
    requires
        from <= to <= cs.len(),
    ensures
        match r {
            Some(k) => from <= k < to && last_sep(cs@.subrange(from as int, to as int), verbatim)
                == Some(k - from),
            None => last_sep(cs@.subrange(from as int, to as int), verbatim) is None,
        },
{
    let mut i = to;
    while i > from
        invariant
            from <= i <= to <= cs.len(),
            last_sep(cs@.subrange(from as int, to as int), verbatim) == last_sep(
                cs@.subrange(from as int, i as int),
                verbatim,
            ),
        decreases i,
    {
        let ghost sub = cs@.subrange(from as int, i as int);
        proof {
            assert(sub.drop_last() =~= cs@.subrange(from as int, i - 1));
            assert(sub.last() == cs@[i - 1]);
        }
        if is_sep_in_exec(cs[i - 1], verbatim) {
            return Some(i - 1);
        }
        i -= 1;
    }
    None
}

/// End of `cs[from..to]` once trailing pieces that are no components are removed.
fn trim_end(cs: &Vec<char>, from: usize, to: usize, verbatim: bool) -> (e: usize)
    requires
        from <= to <= cs.len(),
    ensures
        from <= e <= to,
        cs@.subrange(from as int, e as int) == trim_right(
            cs@.subrange(from as int, to as int),
            verbatim,
        ),
{
    let mut e = to;
    while e > from
        invariant
            from <= e <= to <= cs.len(),
            trim_right(cs@.subrange(from as int, e as int), verbatim) == trim_right(
                cs@.subrange(from as int, to as int),
                verbatim,
            ),
        decreases e,
    {
        let ghost sub = cs@.subrange(from as int, e as int);
        let k = last_sep_between(cs, from, e, verbatim);
        let start = match k {
            Some(k) => k + 1,
            None => from,
        };
        proof {
            assert(last_piece(sub, verbatim) =~= cs@.subrange(start as int, e as int));
        }
        let len = e - start;
        let is_comp = len > 0 && (verbatim || !(len == 1 && cs[start] == '.'));
        proof {
            let piece = cs@.subrange(start as int, e as int);
            if len == 1 {
                assert(piece[0] == cs@[start as int]);
                if cs@[start as int] == '.' {
                    assert(piece =~= seq!['.']);
                }
            }
            assert(is_comp == is_real(piece, verbatim));
        }
        if is_comp {
            return e;
        }
        let next = match k {
            Some(k) => k,
            None => from,
        };
        proof {
            assert(strip_back(sub, verbatim) =~= cs@.subrange(from as int, next as int));
        }
        e = next;
    }
    e
}

/// The path without its last component (`Path::parent`).
pub fn path_parent(path: &str) -> (r: Option<String>)
    ensures
        r is Some <==> parent(path@) is Some,
        r matches Some(p) ==> Some(p@) == parent(path@),
{
    let cs = chars_of(path);
    let n = cs.len();
    let sh = shape_of(&cs);
    let bs = sh.body_start;
    proof {
        assert(cs@.skip(bs as int) =~= cs@.subrange(bs as int, n as int));
    }
    let t = trim_end(&cs, bs, n, sh.verbatim);
    if t > bs {
        let k = last_sep_between(&cs, bs, t, sh.verbatim);
        let cut = match k {
            Some(k) => k,
            None => bs,
        };
        proof {
            assert(strip_back(cs@.subrange(bs as int, t as int), sh.verbatim) =~= cs@.subrange(
                bs as int,
                cut as int,
            ));
        }
        let p = trim_end(&cs, bs, cut, sh.verbatim);
        proof {
            assert(cs@.take(bs as int) + cs@.subrange(bs as int, p as int) =~= cs@.subrange(
                0,
                p as int,
            ));
        }
        Some(string_from_range(&cs, 0, p))
    } else if sh.root_comp {
        None
    } else if sh.lead_cur {
        Some(String::new())
    } else {
        None
    }
}

/// Appends the characters of `cs` to `out`.
fn push_chars(out: &mut String, cs: &Vec<char>)
    ensures
        final(out)@ == old(out)@ + cs@,
{
    let mut i: usize = 0;
    while i < cs.len()
        invariant
            i <= cs.len(),
            out@ == old(out)@ + cs@.take(i as int),
        decreases cs.len() - i,
    {
        push_char(out, cs[i]);
        proof {
            assert(cs@.take(i + 1) =~= cs@.take(i as int).push(cs@[i as int]));
        }
        i += 1;
    }
    proof {
        assert(cs@.take(cs.len() as int) =~= cs@);
    }
}

/// `name`, a plain file name, appended to `base` as a new component (`Path::join`).
pub fn path_join(base: &str, name: &str) -> (r: String)
    requires
        is_plain_name(name@),
    ensures
        r@ == join(base@, name@),
{
    let cs = chars_of(base);
    let n = cs.len();
    let sh = shape_of(&cs);
    if sh.verbatim {
        let mut out = string_from_range(&cs, 0, sh.plen);
        if sh.physical_root {
            push_char(&mut out, '\\');
        }
        let lead = !sh.physical_root && !sh.drive;
        let ghost head = out@;
        let comps = comps_from(&cs, sh.body_start, true);
        let ghost cv = views_of(comps@);
        proof {
            assert(cv.take(0) =~= Seq::<Seq<char>>::empty());
        }
        let mut i: usize = 0;
        while i < comps.len()
            invariant
                i <= comps.len(),
                cv == views_of(comps@),
                out@ == head + join_comps(cv.take(i as int), lead),
            decreases comps.len() - i,
        {
            if i > 0 || lead {
                push_char(&mut out, '\\');
            }
            push_chars(&mut out, &comps[i]);
            proof {
                assert(cv.take(i + 1).drop_last() =~= cv.take(i as int));
                assert(cv.take(i + 1).last() == comps@[i as int]@);
            }
            i += 1;
        }
        if comps.len() > 0 || lead {
            push_char(&mut out, '\\');
        }
        out.append(name);
        proof {
            assert(cv.take(comps.len() as int) =~= cv);
            assert(cv.push(name@).drop_last() =~= cv);
            assert(cs@.take(sh.plen as int) =~= cs@.subrange(0, sh.plen as int));
            assert(out@ =~= join(base@, name@));
        }
        out
    } else {
        let need_sep = n > 0 && !is_sep_exec(cs[n - 1]) && !(sh.drive && sh.plen == n);
        let mut out = base.to_owned();
        if need_sep {
            push_char(&mut out, '\\');
        }
        out.append(name);
        out
    }
}

} // verus!

verus! {

/// Without two leading separators, only a drive can be a prefix.
proof fn lemma_no_unc_prefix(s: Seq<char>)
    requires
        !(s.len() >= 2 && is_sep(s[0]) && is_sep(s[1])),
    ensures
        parse_prefix(s) == (if s.len() >= 2 && is_drive_letter(s[0]) && s[1] == ':' {
            Some((PrefixKind::Disk, 2nat, Seq::<char>::empty(), Seq::<char>::empty(), drive_code(s[0])))
        } else {
            None
        }),
{
    reveal(parse_prefix);
}

proof fn lemma_run_len_push_sep(x: Seq<char>, c: char, verbatim: bool)
    requires
        is_sep_in(c, verbatim),
    ensures
        run_len(x.push(c), verbatim) == run_len(x, verbatim),
        run_len(x, verbatim) <= x.len(),
    decreases x.len(),
{
    if x.len() > 0 && !is_sep_in(x[0], verbatim) {
        assert(x.push(c).drop_first() =~= x.drop_first().push(c));
        lemma_run_len_push_sep(x.drop_first(), c, verbatim);
    }
}

/// A trailing separator adds no component.
proof fn lemma_comps_push_sep(x: Seq<char>, c: char, verbatim: bool)
    requires
        is_sep_in(c, verbatim),
    ensures
        comps_of(x.push(c), verbatim) == comps_of(x, verbatim),
    decreases x.len(),
{
    let y = x.push(c);
    if x.len() == 0 {
        assert(y.drop_first() =~= Seq::<char>::empty());
        assert(comps_of(x, verbatim) =~= Seq::<Seq<char>>::empty());
        assert(comps_of(y, verbatim) == comps_of(y.drop_first(), verbatim));
        assert(comps_of(y, verbatim) == comps_of(x, verbatim));
    } else if is_sep_in(x[0], verbatim) {
        assert(y.drop_first() =~= x.drop_first().push(c));
        lemma_comps_push_sep(x.drop_first(), c, verbatim);
        assert(y[0] == x[0]);
        assert(comps_of(y, verbatim) == comps_of(x, verbatim));
    } else {
        assert(y[0] == x[0]);
        lemma_run_len_push_sep(x, c, verbatim);
        let k = run_len(x, verbatim) as int;
        assert(run_len(x, verbatim) == 1 + run_len(x.drop_first(), verbatim));
        assert(k >= 1);
        assert(y.take(k) =~= x.take(k));
        assert(y.skip(k) =~= x.skip(k).push(c));
        lemma_comps_push_sep(x.skip(k), c, verbatim);
        let h = x.take(k);
        if !verbatim && h == seq!['.'] {
            assert(comps_of(y, verbatim) == comps_of(y.skip(k), verbatim));
            assert(comps_of(x, verbatim) == comps_of(x.skip(k), verbatim));
        } else {
            assert(comps_of(y, verbatim) == seq![h] + comps_of(y.skip(k), verbatim));
            assert(comps_of(x, verbatim) == seq![h] + comps_of(x.skip(k), verbatim));
        }
    }
}

/// The text after a separator (or alone) splits as before, then `p`.
proof fn lemma_comps_append_piece(a: Seq<char>, p: Seq<char>, verbatim: bool)
    requires
        a.len() == 0 || is_sep_in(a.last(), verbatim),
        forall|j: int| 0 <= j < p.len() ==> !is_sep_in(#[trigger] p[j], verbatim),
    ensures
        comps_of(a + p, verbatim) == comps_of(a, verbatim) + (if is_real(p, verbatim) {
            seq![p]
        } else {
            Seq::<Seq<char>>::empty()
        }),
    decreases a.len(),
{
    let s = a + p;
    let extra = if is_real(p, verbatim) {
        seq![p]
    } else {
        Seq::<Seq<char>>::empty()
    };
    if a.len() == 0 {
        assert(s =~= p);
        assert(comps_of(a, verbatim) =~= Seq::<Seq<char>>::empty());
        if p.len() > 0 {
            assert(!is_sep_in(p[0], verbatim));
            lemma_run_len(p, verbatim, p.len() as int);
            assert(p.take(p.len() as int) =~= p);
            assert(p.skip(p.len() as int) =~= Seq::<char>::empty());
            assert(comps_of(Seq::<char>::empty(), verbatim) =~= Seq::<Seq<char>>::empty());
            if !verbatim && p == seq!['.'] {
                assert(comps_of(p, verbatim) == comps_of(p.skip(p.len() as int), verbatim));
            } else {
                assert(comps_of(p, verbatim) == seq![p] + comps_of(
                    p.skip(p.len() as int),
                    verbatim,
                ));
                assert(seq![p] + Seq::<Seq<char>>::empty() =~= seq![p]);
            }
        } else {
            assert(comps_of(s, verbatim) =~= Seq::<Seq<char>>::empty());
        }
        assert(comps_of(a, verbatim) + extra =~= extra);
        assert(comps_of(s, verbatim) == extra);
    } else if is_sep_in(a[0], verbatim) {
        assert(s[0] == a[0]);
        assert(s.drop_first() =~= a.drop_first() + p);
        if a.len() > 1 {
            assert(a.drop_first().last() == a.last());
        }
        lemma_comps_append_piece(a.drop_first(), p, verbatim);
        assert(comps_of(s, verbatim) == comps_of(s.drop_first(), verbatim));
        assert(comps_of(a, verbatim) == comps_of(a.drop_first(), verbatim));
    } else {
        assert(s[0] == a[0]);
        lemma_run_len_append(a, p, verbatim);
        let k = run_len(a, verbatim) as int;
        assert(run_len(a, verbatim) == 1 + run_len(a.drop_first(), verbatim));
        assert(k >= 1);
        assert(s.take(k) =~= a.take(k));
        assert(s.skip(k) =~= a.skip(k) + p);
        assert(a.skip(k).last() == a.last());
        lemma_comps_append_piece(a.skip(k), p, verbatim);
        let h = a.take(k);
        if !verbatim && h == seq!['.'] {
            assert(comps_of(s, verbatim) == comps_of(s.skip(k), verbatim));
            assert(comps_of(a, verbatim) == comps_of(a.skip(k), verbatim));
        } else {
            assert(comps_of(s, verbatim) == seq![h] + comps_of(s.skip(k), verbatim));
            assert(comps_of(a, verbatim) == seq![h] + comps_of(a.skip(k), verbatim));
            assert(seq![h] + (comps_of(a.skip(k), verbatim) + extra) =~= (seq![h] + comps_of(
                a.skip(k),
                verbatim,
            )) + extra);
        }
    }
}

proof fn lemma_run_len_append(a: Seq<char>, p: Seq<char>, verbatim: bool)
    requires
        a.len() > 0,
        is_sep_in(a.last(), verbatim),
    ensures
        run_len(a + p, verbatim) == run_len(a, verbatim),
        run_len(a, verbatim) < a.len(),
    decreases a.len(),
{
    let s = a + p;
    assert(s[0] == a[0]);
    if !is_sep_in(a[0], verbatim) {
        assert(a.len() > 1);
        assert(s.drop_first() =~= a.drop_first() + p);
        assert(a.drop_first().last() == a.last());
        lemma_run_len_append(a.drop_first(), p, verbatim);
    }
}

/// The last separator of `a + b`, where `b` holds none, is the last one of `a`.
proof fn lemma_last_sep_concat(a: Seq<char>, b: Seq<char>, verbatim: bool)
    requires
        forall|j: int| 0 <= j < b.len() ==> !is_sep_in(#[trigger] b[j], verbatim),
    ensures
        last_sep(a + b, verbatim) == last_sep(a, verbatim),
    decreases b.len(),
{
    if b.len() > 0 {
        assert((a + b).drop_last() =~= a + b.drop_last());
        assert((a + b).last() == b[b.len() - 1]);
        lemma_last_sep_concat(a, b.drop_last(), verbatim);
    } else {
        assert(a + b =~= a);
    }
}

/// Trimming keeps a prefix of the text with the same components, ending in a component.
proof fn lemma_trim_right(s: Seq<char>, verbatim: bool)
    ensures
        trim_right(s, verbatim).len() <= s.len(),
        trim_right(s, verbatim) == s.take(trim_right(s, verbatim).len() as int),
        comps_of(trim_right(s, verbatim), verbatim) == comps_of(s, verbatim),
        trim_right(s, verbatim).len() == 0 || is_real(
            last_piece(trim_right(s, verbatim), verbatim),
            verbatim,
        ),
    decreases s.len(),
{
    if s.len() > 0 && !is_real(last_piece(s, verbatim), verbatim) {
        lemma_last_sep(s, verbatim);
        match last_sep(s, verbatim) {
            Some(k) => {
                let a = s.take(k + 1);
                let p = s.skip(k + 1);
                assert(s =~= a + p);
                assert(a.last() == s[k]);
                lemma_comps_append_piece(a, p, verbatim);
                assert(a =~= s.take(k).push(s[k]));
                lemma_comps_push_sep(s.take(k), s[k], verbatim);
                lemma_trim_right(s.take(k), verbatim);
                let t = trim_right(s.take(k), verbatim);
                assert(s.take(k).take(t.len() as int) =~= s.take(t.len() as int));
            },
            None => {
                lemma_comps_append_piece(Seq::<char>::empty(), s, verbatim);
                assert(Seq::<char>::empty() + s =~= s);
                assert(trim_right(Seq::<char>::empty(), verbatim) == Seq::<char>::empty());
                assert(comps_of(Seq::<char>::empty(), verbatim) =~= Seq::<Seq<char>>::empty());
                assert(s.take(0) =~= Seq::<char>::empty());
            },
        }
    } else {
        assert(s.take(s.len() as int) =~= s);
    }
}

/// The layout of a prefix `dir.take(m)` of a directory without two leading
/// separators matches that of the directory, once `m` reaches the directory's body
/// and what is kept of the body ends in a component (or is empty).
proof fn lemma_take_same_shape(dir: Seq<char>, m: int)
    requires
        !(dir.len() >= 2 && is_sep(dir[0]) && is_sep(dir[1])),
        body_start(dir) <= m <= dir.len(),
        body_start(dir) <= dir.len(),
        m == body_start(dir) || is_real(
            last_piece(dir.subrange(body_start(dir) as int, m), false),
            false,
        ),
    ensures
        parse_prefix(dir.take(m)) == parse_prefix(dir),
        physical_root(dir.take(m)) == physical_root(dir),
        cur_dir(dir.take(m)) == cur_dir(dir),
        body_start(dir.take(m)) == body_start(dir),
{
    let q = dir.take(m);
    lemma_no_unc_prefix(dir);
    lemma_no_unc_prefix(q);
    let b = body_start(dir) as int;
    let pl = prefix_len(dir) as int;
    if m >= 2 {
        assert(q[0] == dir[0] && q[1] == dir[1]);
    }
    assert(parse_prefix(q) == parse_prefix(dir));
    if m > pl {
        assert(q[pl] == dir[pl]);
    }
    if m > pl + 1 {
        assert(q[pl + 1] == dir[pl + 1]);
    }
    if m == pl + 1 && !has_root(dir) && dir[pl] == '.' && !cur_dir(dir) {
        assert(b == pl);
        let w = dir.subrange(b, m);
        assert(w =~= seq!['.']);
        assert(last_sep(w.drop_last(), false) is None);
        assert(last_sep(w, false) is None);
        assert(last_piece(w, false) == w);
    }
}

/// Spec: the separator a plain join inserts after a directory that is not verbatim.
spec fn join_tail(dir: Seq<char>) -> Seq<char> {
    if dir.len() > 0 && !is_sep(dir.last()) && !(is_drive_prefix(dir) && prefix_len(dir)
        == dir.len()) {
        seq!['\\']
    } else {
        Seq::<char>::empty()
    }
}

/// Joining keeps the directory's prefix, root and leading `.`.
proof fn lemma_join_shape(dir: Seq<char>, name: Seq<char>)
    requires
        is_plain_name(name),
        !(dir.len() >= 2 && is_sep(dir[0]) && is_sep(dir[1])),
    ensures
        !is_verbatim(dir),
        join(dir, name) == dir + join_tail(dir) + name,
        parse_prefix(join(dir, name)) == parse_prefix(dir),
        physical_root(join(dir, name)) == physical_root(dir),
        cur_dir(join(dir, name)) == cur_dir(dir),
        body_start(join(dir, name)) == body_start(dir),
        body_start(dir) <= dir.len(),
{
    let j = join(dir, name);
    let n = dir.len() as int;
    lemma_no_unc_prefix(dir);
    let tail = join_tail(dir);
    let need = tail.len() > 0;
    assert(j =~= dir + tail + name);
    assert(!is_sep(name[0]));
    if n >= 2 {
        assert(j[0] == dir[0] && j[1] == dir[1]);
    } else if n == 1 {
        assert(j[0] == dir[0]);
        if !is_sep(dir[0]) {
            assert(j[1] == '\\');
        } else {
            assert(j[1] == name[0]);
        }
    } else {
        assert(j =~= name);
        if name.len() >= 2 {
            assert(j[1] == name[1]);
        }
    }
    lemma_no_unc_prefix(j);
    assert(parse_prefix(j) == parse_prefix(dir));
    let pl = prefix_len(dir) as int;
    if n > pl {
        assert(j[pl] == dir[pl]);
        if n > pl + 1 {
            assert(j[pl + 1] == dir[pl + 1]);
        } else if dir[pl] == '.' {
            assert(need);
            assert(j[pl + 1] == '\\');
        }
    } else {
        assert(!need);
        assert(j[pl] == name[0]);
        if name.len() > 1 {
            assert(j[pl + 1] == name[1]);
        } else {
            assert(name =~= seq![name[0]]);
        }
    }
}

/// Joining appends the name to the directory's components.
proof fn lemma_join_components(dir: Seq<char>, name: Seq<char>)
    requires
        is_plain_name(name),
        !(dir.len() >= 2 && is_sep(dir[0]) && is_sep(dir[1])),
    ensures
        components(join(dir, name)) == components(dir).push(name),
        join(dir, name).skip(body_start(dir) as int) == dir.skip(body_start(dir) as int)
            + join_tail(dir) + name,
        dir.skip(body_start(dir) as int) + join_tail(dir) == Seq::<char>::empty()
            || is_sep_in((dir.skip(body_start(dir) as int) + join_tail(dir)).last(), false),
{
    lemma_join_shape(dir, name);
    let j = join(dir, name);
    let b = body_start(dir) as int;
    let x = dir.skip(b);
    let tail = join_tail(dir);
    let y = x + tail;
    assert(j.skip(b) =~= y + name);
    if tail.len() == 0 && y.len() > 0 {
        assert(y =~= x);
        assert(x.last() == dir.last());
    }
    if y.len() == 0 {
        assert(y =~= Seq::<char>::empty());
    }
    assert forall|k: int| 0 <= k < name.len() implies !is_sep_in(#[trigger] name[k], false) by {
        assert(!is_sep(name[k]));
    }
    lemma_comps_append_piece(y, name, false);
    if tail.len() > 0 {
        lemma_comps_push_sep(x, '\\', false);
        assert(x.push('\\') =~= y);
    } else {
        assert(y =~= x);
    }
    assert(components(j) =~= components(dir).push(name));
}

/// Cutting a plain piece off the end of `y + name`, where `y` is empty or
/// ends in a separator, leaves `y` less that separator.
proof fn lemma_cut_piece(y: Seq<char>, name: Seq<char>)
    requires
        y.len() == 0 || is_sep_in(y.last(), false),
        is_real(name, false),
        forall|k: int| 0 <= k < name.len() ==> !is_sep_in(#[trigger] name[k], false),
    ensures
        trim_right(y + name, false) == y + name,
        strip_back(y + name, false) == (if y.len() > 0 {
            y.drop_last()
        } else {
            y
        }),
{
    lemma_last_sep_concat(y, name, false);
    let t = y + name;
    if y.len() > 0 {
        assert(last_sep(y, false) == Some(y.len() - 1));
        assert(t.skip(y.len() as int) =~= name);
        assert(t.take(y.len() - 1) =~= y.drop_last());
    } else {
        assert(last_sep(y, false) is None) by {
            assert(y =~= Seq::<char>::empty());
        }
        assert(t =~= name);
    }
    assert(last_piece(t, false) == name);
}

/// The parent of the joined path is the directory cut after its last
/// component.
#[verifier::rlimit(50)]
#[verifier::spinoff_prover]
proof fn lemma_join_parent(dir: Seq<char>, name: Seq<char>) -> (m: int)
    requires
        is_plain_name(name),
        !(dir.len() >= 2 && is_sep(dir[0]) && is_sep(dir[1])),
    ensures
        body_start(dir) <= m <= dir.len(),
        parent(join(dir, name)) == Some(dir.take(m)),
        m == body_start(dir) || is_real(
            last_piece(dir.subrange(body_start(dir) as int, m), false),
            false,
        ),
        comps_of(dir.subrange(body_start(dir) as int, m), false) == comps_of(
            dir.skip(body_start(dir) as int),
            false,
        ),
{
    lemma_join_shape(dir, name);
    lemma_join_components(dir, name);
    let j = join(dir, name);
    let b = body_start(dir) as int;
    let x = dir.skip(b);
    let tail = join_tail(dir);
    let y = x + tail;
    assert forall|k: int| 0 <= k < name.len() implies !is_sep_in(#[trigger] name[k], false) by {
        assert(!is_sep(name[k]));
    }
    lemma_cut_piece(y, name);
    let t = y + name;
    assert(j.skip(b) == t);
    let y2 = strip_back(t, false);
    if tail.len() > 0 {
        assert(y2 =~= x);
    } else if x.len() > 0 {
        assert(y =~= x);
        assert(y2 =~= x.drop_last());
        assert(x.drop_last().push(x.last()) =~= x);
        lemma_comps_push_sep(x.drop_last(), x.last(), false);
    } else {
        assert(y2 =~= x);
    }
    assert(comps_of(y2, false) == comps_of(x, false));
    lemma_trim_right(y2, false);
    let w = trim_right(y2, false);
    let m = b + w.len();
    assert(w =~= dir.subrange(b, m));
    assert(j.take(b) =~= dir.take(b));
    assert(j.take(b) + w =~= dir.take(m));
    assert(parent(j) == Some(dir.take(m)));
    m
}

/// Joining a plain file name to a directory that does not start with two
/// separators gives a path whose file name is that name and whose parent is the
/// directory.
pub proof fn lemma_join_file_name(dir: Seq<char>, name: Seq<char>)
    requires
        is_plain_name(name),
        !(dir.len() >= 2 && is_sep(dir[0]) && is_sep(dir[1])),
    ensures
        file_name(join(dir, name)) == Some(name),
        parent(join(dir, name)) matches Some(p) && paths_equal(p, dir),
{
    lemma_join_shape(dir, name);
    lemma_join_components(dir, name);
    let m = lemma_join_parent(dir, name);
    let b = body_start(dir) as int;
    let par = dir.take(m);
    lemma_take_same_shape(dir, m);
    assert(par.skip(b) =~= dir.subrange(b, m));
    assert(components(par) == components(dir));
}

} // verus!

//! The platforms of the Stone database: their IDs, the file types of each
//! platform with their mimetypes, and the MD5 hashes of their BIOS files.

use vstd::prelude::*;
use crate::text::{ascii_upper, chars_of, str_eq, substr, to_ascii_uppercase};

verus! {

/// A platform ID, such as `NINTENDO_NES`.
#[derive(Debug, PartialEq, Eq, Hash)]
pub struct PlatformId(pub String);

impl PlatformId {
    /// The platform ID written `id`.
    pub fn new(id: String) -> (res: PlatformId)
        ensures
            res.0@ == id@,
    {
        PlatformId(id)
    }

    /// The platform ID that `id` names, whatever the case of its ASCII letters:
    /// the ID is `id` in upper case.
    pub fn from(id: &str) -> (res: PlatformId)
        ensures
            res.0@ == ascii_upper(id@),
    {
        PlatformId(to_ascii_uppercase(id))
    }

    /// The ID as it is written.
    pub fn as_ref(&self) -> (res: &str)
        ensures
            res@ == self.0@,
    {
        self.0.as_str()
    }

    /// A copy of the ID.
    pub fn copy(&self) -> (res: PlatformId)
        ensures
            res.0@ == self.0@,
    {
        PlatformId(self.0.clone())
    }
}

/// Why the Stone data could not be used.
#[derive(Debug, PartialEq, Eq)]
pub enum StoneError {
    /// The data could not be deserialized; the message says why.
    Deserialization(String),
    /// The data could not be read; the message says why.
    Io(String),
    /// The data does not have the shape of a Stone file.
    InvalidStoneFile,
    /// There is no platform with this ID.
    InvalidPlatformId(String),
    /// There is no platform with this ID.
    NoSuchPlatform(PlatformId),
}

/// Pairs of strings as pairs of character sequences.
pub open spec fn pair_views(v: Seq<(String, String)>) -> Seq<(Seq<char>, Seq<char>)> {
    v.map_values(|p: (String, String)| (p.0@, p.1@))
}

/// The index of the first pair, from `i` on, whose key is `k`.
pub open spec fn key_index(v: Seq<(Seq<char>, Seq<char>)>, k: Seq<char>, i: int) -> Option<int>
    decreases v.len() - i,
{
    if i < 0 || i >= v.len() {
        None
    } else if v[i].0 == k {
        Some(i)
    } else {
        key_index(v, k, i + 1)
    }
}

/// The value of the first pair whose key is `k`.
pub open spec fn lookup(v: Seq<(Seq<char>, Seq<char>)>, k: Seq<char>) -> Option<Seq<char>> {
    match key_index(v, k, 0) {
        Some(i) => Some(v[i].1),
        None => None,
    }
}

/// The pairs with `k` mapped to `val`: the value of the first pair with key
/// `k` replaced, or the pair added at the end when there is none.
pub open spec fn insert_pair(v: Seq<(Seq<char>, Seq<char>)>, k: Seq<char>, val: Seq<char>) -> Seq<
    (Seq<char>, Seq<char>),
> {
    match key_index(v, k, 0) {
        Some(i) => v.update(i, (k, val)),
        None => v.push((k, val)),
    }
}

pub proof fn lemma_key_index(v: Seq<(Seq<char>, Seq<char>)>, k: Seq<char>, i: int)
    requires
        0 <= i,
    ensures
        key_index(v, k, i) matches Some(j) ==> i <= j < v.len() && v[j].0 == k && forall|m: int|
            i <= m < j ==> v[m].0 != k,
        key_index(v, k, i) is None ==> forall|m: int| i <= m < v.len() ==> v[m].0 != k,
    decreases v.len() - i,
{
    if i >= v.len() {
    } else if v[i].0 == k {
    } else {
        lemma_key_index(v, k, i + 1);
    }
}

/// Whether an extension gets the derived forms: all do but the `BIOS` and `RSRC` entries.
pub open spec fn is_file_extension(ext: Seq<char>) -> bool {
    ext != "BIOS"@ && ext != "RSRC"@
}

/// The file types with, for each extension of `orig` from index `i` on, the
/// extension without its dot, that in upper case, and the whole extension in
/// upper case added with the same mimetype.
pub open spec fn expand_from(
    orig: Seq<(Seq<char>, Seq<char>)>,
    acc: Seq<(Seq<char>, Seq<char>)>,
    i: int,
) -> Seq<(Seq<char>, Seq<char>)>
    decreases orig.len() - i,
{
    if i < 0 || i >= orig.len() {
        acc
    } else {
        let (ext, mime) = orig[i];
        if is_file_extension(ext) {
            let tail = ext.subrange(1, ext.len() as int);
            expand_from(
                orig,
                insert_pair(
                    insert_pair(insert_pair(acc, tail, mime), ascii_upper(tail), mime),
                    ascii_upper(ext),
                    mime,
                ),
                i + 1,
            )
        } else {
            expand_from(orig, acc, i + 1)
        }
    }
}

/// What the extensions must be for their derived forms: not empty, and
/// starting with an ASCII character such as the dot of `.nes`.
pub open spec fn well_formed_extensions(v: Seq<(Seq<char>, Seq<char>)>) -> bool {
    forall|i: int|
        0 <= i < v.len() && is_file_extension(#[trigger] v[i].0) ==> v[i].0.len() > 0
            && v[i].0[0] <= '\u{7f}'
}

fn find_key(v: &Vec<(String, String)>, k: &str) -> (res: Option<usize>)
    ensures
        match res {
            Some(i) => key_index(pair_views(v@), k@, 0) == Some(i as int) && i < v@.len()
                && v@[i as int].0@ == k@,
            None => key_index(pair_views(v@), k@, 0) is None,
        },
{
    let ghost pv = pair_views(v@);
    let mut i: usize = 0;
    while i < v.len()
        invariant
            pv == pair_views(v@),
            i <= v@.len(),
            key_index(pv, k@, 0) == key_index(pv, k@, i as int),
        decreases v@.len() - i,
    {
        if str_eq(v[i].0.as_str(), k) {
            return Some(i);
        }
        i = i + 1;
    }
    None
}

fn insert_into(v: &mut Vec<(String, String)>, k: String, val: String)
    ensures
        pair_views(final(v)@) == insert_pair(pair_views(old(v)@), k@, val@),
{
    match find_key(v, k.as_str()) {
        Some(i) => {
            let ghost kv = (k@, val@);
            v.set(i, (k, val));
            assert(pair_views(v@) =~= pair_views(old(v)@).update(i as int, kv));
        },
        None => {
            let ghost kv = (k@, val@);
            v.push((k, val));
            assert(pair_views(v@) =~= pair_views(old(v)@).push(kv));
        },
    }
}

/// The file types with the derived forms of each extension added: without
/// its dot, and in upper case with and without its dot, so that extensions
/// are found whatever their case and whether or not they have a dot.
pub fn expand_file_types(file_types: &Vec<(String, String)>) -> (res: Vec<(String, String)>)
    requires
        well_formed_extensions(pair_views(file_types@)),
        distinct_keys(pair_views(file_types@)),
    ensures
        pair_views(res@) == expand_from(pair_views(file_types@), pair_views(file_types@), 0),
        distinct_keys(pair_views(res@)),
{
    let ghost orig = pair_views(file_types@);
    let mut acc: Vec<(String, String)> = Vec::new();
    let mut j: usize = 0;
    while j < file_types.len()
        invariant
            j <= file_types@.len(),
            pair_views(acc@) == pair_views(file_types@.subrange(0, j as int)),
        decreases file_types@.len() - j,
    {
        let p = (file_types[j].0.clone(), file_types[j].1.clone());
        proof {
            assert(pair_views(acc@.push(p)) =~= pair_views(acc@).push((p.0@, p.1@)));
            assert(pair_views(file_types@.subrange(0, j + 1)) =~= pair_views(
                file_types@.subrange(0, j as int),
            ).push((file_types@[j as int].0@, file_types@[j as int].1@)));
        }
        acc.push(p);
        j = j + 1;
    }
    assert(file_types@.subrange(0, file_types@.len() as int) =~= file_types@);
    let mut i: usize = 0;
    while i < file_types.len()
        invariant
            orig == pair_views(file_types@),
            well_formed_extensions(orig),
            i <= file_types@.len(),
            expand_from(orig, orig, 0) == expand_from(orig, pair_views(acc@), i as int),
        decreases file_types@.len() - i,
    {
        let ext = &file_types[i].0;
        let mime = &file_types[i].1;
        if !str_eq(ext.as_str(), "BIOS") && !str_eq(ext.as_str(), "RSRC") {
            let ghost e = orig[i as int].0;
            assert(e.len() > 0 && e[0] <= '\u{7f}');
            let n = ext.as_str().unicode_len();
            let tail = substr(ext.as_str(), 1, n);
            let tail_upper = to_ascii_uppercase(tail.as_str());
            let ext_upper = to_ascii_uppercase(ext.as_str());
            insert_into(&mut acc, tail, mime.clone());
            insert_into(&mut acc, tail_upper, mime.clone());
            insert_into(&mut acc, ext_upper, mime.clone());
        }
        i = i + 1;
    }
    proof {
        lemma_expand_preserves_distinct(orig, orig, 0);
    }
    acc
}

/// Whether some pair has the key `k`.
pub open spec fn has_key(v: Seq<(Seq<char>, Seq<char>)>, k: Seq<char>) -> bool {
    exists|m: int| 0 <= m < v.len() && (#[trigger] v[m]).0 == k
}

proof fn lemma_has_key(v: Seq<(Seq<char>, Seq<char>)>, k: Seq<char>)
    ensures
        (lookup(v, k) is Some) == has_key(v, k),
{
    lemma_key_index(v, k, 0);
    if let Some(j) = key_index(v, k, 0) {
        assert(v[j].0 == k);
    }
}

proof fn lemma_insert_pair_keys(
    v: Seq<(Seq<char>, Seq<char>)>,
    k: Seq<char>,
    val: Seq<char>,
    k2: Seq<char>,
)
    ensures
        has_key(insert_pair(v, k, val), k2) == (k2 == k || has_key(v, k2)),
{
    lemma_key_index(v, k, 0);
    let w = insert_pair(v, k, val);
    match key_index(v, k, 0) {
        Some(i) => {
            assert(w[i].0 == k);
            if has_key(v, k2) {
                let m = choose|m: int| 0 <= m < v.len() && (#[trigger] v[m]).0 == k2;
                if m == i {
                    assert(w[i].0 == k2);
                } else {
                    assert(w[m].0 == k2);
                }
            }
            if has_key(w, k2) {
                let m = choose|m: int| 0 <= m < w.len() && (#[trigger] w[m]).0 == k2;
                if m != i {
                    assert(v[m].0 == k2);
                }
            }
        },
        None => {
            assert(w[v.len() as int].0 == k);
            if has_key(v, k2) {
                let m = choose|m: int| 0 <= m < v.len() && (#[trigger] v[m]).0 == k2;
                assert(w[m].0 == k2);
            }
            if has_key(w, k2) {
                let m = choose|m: int| 0 <= m < w.len() && (#[trigger] w[m]).0 == k2;
                if m < v.len() {
                    assert(v[m].0 == k2);
                }
            }
        },
    }
}

proof fn lemma_expand_keeps_keys(
    orig: Seq<(Seq<char>, Seq<char>)>,
    acc: Seq<(Seq<char>, Seq<char>)>,
    i: int,
    k: Seq<char>,
)
    requires
        has_key(acc, k),
    ensures
        has_key(expand_from(orig, acc, i), k),
    decreases orig.len() - i,
{
    if i < 0 || i >= orig.len() {
    } else {
        let (ext, mime) = orig[i];
        if is_file_extension(ext) {
            let tail = ext.subrange(1, ext.len() as int);
            let a1 = insert_pair(acc, tail, mime);
            let a2 = insert_pair(a1, ascii_upper(tail), mime);
            let a3 = insert_pair(a2, ascii_upper(ext), mime);
            lemma_insert_pair_keys(acc, tail, mime, k);
            lemma_insert_pair_keys(a1, ascii_upper(tail), mime, k);
            lemma_insert_pair_keys(a2, ascii_upper(ext), mime, k);
            lemma_expand_keeps_keys(orig, a3, i + 1, k);
        } else {
            lemma_expand_keeps_keys(orig, acc, i + 1, k);
        }
    }
}

proof fn lemma_expand_adds_keys(
    orig: Seq<(Seq<char>, Seq<char>)>,
    acc: Seq<(Seq<char>, Seq<char>)>,
    i: int,
    j: int,
)
    requires
        0 <= i <= j < orig.len(),
        is_file_extension(orig[j].0),
    ensures
        has_key(expand_from(orig, acc, i), orig[j].0.subrange(1, orig[j].0.len() as int)),
        has_key(expand_from(orig, acc, i), ascii_upper(orig[j].0.subrange(1, orig[j].0.len() as int))),
        has_key(expand_from(orig, acc, i), ascii_upper(orig[j].0)),
    decreases j - i,
{
    let (ext, mime) = orig[i];
    if is_file_extension(ext) {
        let tail = ext.subrange(1, ext.len() as int);
        let a1 = insert_pair(acc, tail, mime);
        let a2 = insert_pair(a1, ascii_upper(tail), mime);
        let a3 = insert_pair(a2, ascii_upper(ext), mime);
        if i == j {
            lemma_insert_pair_keys(acc, tail, mime, tail);
            lemma_insert_pair_keys(a1, ascii_upper(tail), mime, tail);
            lemma_insert_pair_keys(a2, ascii_upper(ext), mime, tail);
            lemma_insert_pair_keys(a1, ascii_upper(tail), mime, ascii_upper(tail));
            lemma_insert_pair_keys(a2, ascii_upper(ext), mime, ascii_upper(tail));
            lemma_insert_pair_keys(a2, ascii_upper(ext), mime, ascii_upper(ext));
            lemma_expand_keeps_keys(orig, a3, i + 1, tail);
            lemma_expand_keeps_keys(orig, a3, i + 1, ascii_upper(tail));
            lemma_expand_keeps_keys(orig, a3, i + 1, ascii_upper(ext));
        } else {
            lemma_expand_adds_keys(orig, a3, i + 1, j);
        }
    } else {
        lemma_expand_adds_keys(orig, acc, i + 1, j);
    }
}

/// After the file types are expanded, every extension they had still has a
/// mimetype, and so do the derived forms of each file extension: without its
/// dot, that in upper case, and the whole extension in upper case.
pub proof fn law_expanded_extensions_found(file_types: Seq<(Seq<char>, Seq<char>)>, j: int)
    requires
        0 <= j < file_types.len(),
    ensures
        ({
            let r = expand_from(file_types, file_types, 0);
            let e = file_types[j].0;
            let tail = e.subrange(1, e.len() as int);
            &&& lookup(r, e) is Some
            &&& is_file_extension(e) ==> lookup(r, tail) is Some && lookup(r, ascii_upper(tail)) is Some
                && lookup(r, ascii_upper(e)) is Some
        }),
{
    let r = expand_from(file_types, file_types, 0);
    let e = file_types[j].0;
    let tail = e.subrange(1, e.len() as int);
    assert(has_key(file_types, e)) by {
        assert(file_types[j].0 == e);
    }
    lemma_expand_keeps_keys(file_types, file_types, 0, e);
    lemma_has_key(r, e);
    if is_file_extension(e) {
        lemma_expand_adds_keys(file_types, file_types, 0, j);
        lemma_has_key(r, tail);
        lemma_has_key(r, ascii_upper(tail));
        lemma_has_key(r, ascii_upper(e));
    }
}


/// Whether no two pairs have the same key.
pub open spec fn distinct_keys(v: Seq<(Seq<char>, Seq<char>)>) -> bool {
    forall|a: int, b: int| 0 <= a < b < v.len() ==> (#[trigger] v[a]).0 != (#[trigger] v[b]).0
}

proof fn lemma_key_index_first(v: Seq<(Seq<char>, Seq<char>)>, q: Seq<char>, i: int, m: int)
    requires
        0 <= i <= m < v.len(),
        v[m].0 == q,
        forall|l: int| i <= l < m ==> v[l].0 != q,
    ensures
        key_index(v, q, i) == Some(m),
    decreases m - i,
{
    if i < m {
        lemma_key_index_first(v, q, i + 1, m);
    }
}

proof fn lemma_key_index_none(v: Seq<(Seq<char>, Seq<char>)>, q: Seq<char>, i: int)
    requires
        0 <= i,
        forall|l: int| i <= l < v.len() ==> v[l].0 != q,
    ensures
        key_index(v, q, i) is None,
    decreases v.len() - i,
{
    if i < v.len() {
        lemma_key_index_none(v, q, i + 1);
    }
}

proof fn lemma_lookup_insert(
    v: Seq<(Seq<char>, Seq<char>)>,
    k: Seq<char>,
    val: Seq<char>,
    q: Seq<char>,
)
    ensures
        lookup(insert_pair(v, k, val), q) == if q == k {
            Some(val)
        } else {
            lookup(v, q)
        },
        distinct_keys(v) ==> distinct_keys(insert_pair(v, k, val)),
{
    lemma_key_index(v, k, 0);
    lemma_key_index(v, q, 0);
    let w = insert_pair(v, k, val);
    match key_index(v, k, 0) {
        Some(i) => {
            if q == k {
                lemma_key_index_first(w, q, 0, i);
            } else {
                match key_index(v, q, 0) {
                    Some(m) => {
                        lemma_key_index_first(w, q, 0, m);
                    },
                    None => {
                        lemma_key_index_none(w, q, 0);
                    },
                }
            }
            assert forall|a: int, b: int|
                distinct_keys(v) && 0 <= a < b < w.len() implies (#[trigger] w[a]).0 != (
            #[trigger] w[b]).0 by {
                assert(v[a].0 != v[b].0);
            }
        },
        None => {
            if q == k {
                lemma_key_index_first(w, q, 0, v.len() as int);
            } else {
                match key_index(v, q, 0) {
                    Some(m) => {
                        lemma_key_index_first(w, q, 0, m);
                    },
                    None => {
                        lemma_key_index_none(w, q, 0);
                    },
                }
            }
            assert forall|a: int, b: int|
                distinct_keys(v) && 0 <= a < b < w.len() implies (#[trigger] w[a]).0 != (
            #[trigger] w[b]).0 by {
                if b < v.len() {
                    assert(v[a].0 != v[b].0);
                } else {
                    assert(v[a].0 != k);
                }
            }
        },
    }
}

/// The extension and the forms derived from it: for a file extension, the
/// extension without its dot, that in upper case, and the whole extension in
/// upper case; for `BIOS` and `RSRC`, the key alone.
pub open spec fn is_form_of(q: Seq<char>, ext: Seq<char>) -> bool {
    let tail = ext.subrange(1, ext.len() as int);
    ||| q == ext
    ||| is_file_extension(ext) && (q == tail || q == ascii_upper(tail) || q == ascii_upper(ext))
}

proof fn lemma_expand_preserves_distinct(
    orig: Seq<(Seq<char>, Seq<char>)>,
    acc: Seq<(Seq<char>, Seq<char>)>,
    i: int,
)
    requires
        distinct_keys(acc),
    ensures
        distinct_keys(expand_from(orig, acc, i)),
    decreases orig.len() - i,
{
    if 0 <= i < orig.len() {
        let (ext, mime) = orig[i];
        if is_file_extension(ext) {
            let tail = ext.subrange(1, ext.len() as int);
            let a1 = insert_pair(acc, tail, mime);
            let a2 = insert_pair(a1, ascii_upper(tail), mime);
            lemma_lookup_insert(acc, tail, mime, tail);
            lemma_lookup_insert(a1, ascii_upper(tail), mime, tail);
            lemma_lookup_insert(a2, ascii_upper(ext), mime, tail);
            lemma_expand_preserves_distinct(orig, insert_pair(a2, ascii_upper(ext), mime), i + 1);
        } else {
            lemma_expand_preserves_distinct(orig, acc, i + 1);
        }
    }
}

proof fn lemma_expand_mimetype(
    orig: Seq<(Seq<char>, Seq<char>)>,
    acc: Seq<(Seq<char>, Seq<char>)>,
    i: int,
    j: int,
    q: Seq<char>,
)
    requires
        0 <= i,
        0 <= j < orig.len(),
        is_form_of(q, orig[j].0),
        forall|l: int| 0 <= l < orig.len() && l != j ==> !is_form_of(q, #[trigger] orig[l].0),
        i <= j ==> lookup(acc, q) == lookup(orig, q),
        i > j ==> lookup(acc, q) == Some(orig[j].1),
        lookup(orig, q) is Some ==> lookup(orig, q) == Some(orig[j].1),
    ensures
        lookup(expand_from(orig, acc, i), q) == Some(orig[j].1),
    decreases orig.len() - i,
{
    if i >= orig.len() {
        assert(i > j);
    } else {
        let (ext, mime) = orig[i];
        let tail = ext.subrange(1, ext.len() as int);
        if is_file_extension(ext) {
            let a1 = insert_pair(acc, tail, mime);
            let a2 = insert_pair(a1, ascii_upper(tail), mime);
            let a3 = insert_pair(a2, ascii_upper(ext), mime);
            lemma_lookup_insert(acc, tail, mime, q);
            lemma_lookup_insert(a1, ascii_upper(tail), mime, q);
            lemma_lookup_insert(a2, ascii_upper(ext), mime, q);
            if i != j {
                assert(!is_form_of(q, orig[i].0));
            } else if q == ext {
                assert(has_key(orig, q)) by {
                    assert(orig[j].0 == q);
                }
                lemma_has_key(orig, q);
            }
            lemma_expand_mimetype(orig, a3, i + 1, j, q);
        } else {
            if i == j {
                assert(q == ext);
                assert(has_key(orig, q)) by {
                    assert(orig[j].0 == q);
                }
                lemma_has_key(orig, q);
            }
            lemma_expand_mimetype(orig, acc, i + 1, j, q);
        }
    }
}

/// After the file types are expanded, an extension or a form derived from it
/// has the extension's mimetype, unless another extension has the same form.
pub proof fn law_expanded_mimetypes(file_types: Seq<(Seq<char>, Seq<char>)>, j: int, q: Seq<char>)
    requires
        0 <= j < file_types.len(),
        is_form_of(q, file_types[j].0),
        forall|l: int|
            0 <= l < file_types.len() && l != j ==> !is_form_of(q, #[trigger] file_types[l].0),
    ensures
        lookup(expand_from(file_types, file_types, 0), q) == Some(file_types[j].1),
{
    lemma_key_index(file_types, q, 0);
    if let Some(m) = key_index(file_types, q, 0) {
        if m != j {
            assert(is_form_of(q, file_types[m].0));
        }
    }
    lemma_expand_mimetype(file_types, file_types, 0, j, q);
}

/// A platform's ID, its file types, and its BIOS files.
#[derive(Debug)]
pub struct PlatformInfo {
    pub platform_id: PlatformId,
    /// Extensions and their mimetypes.
    pub file_types: Vec<(String, String)>,
    /// For each BIOS file name, the MD5 hashes of its known dumps.
    pub bios_files: Option<Vec<(String, Vec<String>)>>,
}

/// Whether one of the BIOS files has a dump with MD5 hash `hash`.
pub open spec fn has_bios_md5(bios: Option<Vec<(String, Vec<String>)>>, hash: Seq<char>) -> bool {
    match bios {
        Some(v) => exists|i: int, j: int|
            0 <= i < v@.len() && 0 <= j < v@[i].1@.len() && (#[trigger] v@[i].1@[j])@ == hash,
        None => false,
    }
}

impl PlatformInfo {
    /// Gets a reference to the platform's ID.
    pub fn platform_id(&self) -> (res: &PlatformId)
        ensures
            res == &self.platform_id,
    {
        &self.platform_id
    }

    /// The extensions, in the order of the file types.
    pub fn file_exts(&self) -> (res: Vec<String>)
        ensures
            res@.len() == self.file_types@.len(),
            forall|i: int| 0 <= i < res@.len() ==> res@[i]@ == self.file_types@[i].0@,
    {
        let mut res: Vec<String> = Vec::new();
        let mut i: usize = 0;
        while i < self.file_types.len()
            invariant
                i <= self.file_types@.len(),
                res@.len() == i,
                forall|j: int| 0 <= j < i ==> res@[j]@ == self.file_types@[j].0@,
            decreases self.file_types@.len() - i,
        {
            res.push(self.file_types[i].0.clone());
            i = i + 1;
        }
        res
    }

    /// The mimetypes, in the order of the file types.
    pub fn mimetypes(&self) -> (res: Vec<String>)
        ensures
            res@.len() == self.file_types@.len(),
            forall|i: int| 0 <= i < res@.len() ==> res@[i]@ == self.file_types@[i].1@,
    {
        let mut res: Vec<String> = Vec::new();
        let mut i: usize = 0;
        while i < self.file_types.len()
            invariant
                i <= self.file_types@.len(),
                res@.len() == i,
                forall|j: int| 0 <= j < i ==> res@[j]@ == self.file_types@[j].1@,
            decreases self.file_types@.len() - i,
        {
            res.push(self.file_types[i].1.clone());
            i = i + 1;
        }
        res
    }

    /// The mimetypes, in the order of the file types, as the platform's
    /// friendly name gives them.
    pub fn friendly_name(&self) -> (res: Vec<String>)
        ensures
            res@.len() == self.file_types@.len(),
            forall|i: int| 0 <= i < res@.len() ==> res@[i]@ == self.file_types@[i].1@,
    {
        self.mimetypes()
    }

    /// The mimetype of the extension `ext`.
    pub fn get_mimetype_for_ext(&self, ext: &str) -> (res: Option<&str>)
        ensures
            match res {
                Some(m) => lookup(pair_views(self.file_types@), ext@) == Some(m@),
                None => lookup(pair_views(self.file_types@), ext@) is None,
            },
    {
        match find_key(&self.file_types, ext) {
            Some(i) => Some(self.file_types[i].1.as_str()),
            None => None,
        }
    }

    /// Whether `hash` is the MD5 hash of a dump of one of the platform's BIOS files.
    pub fn is_bios_md5(&self, hash: &str) -> (res: bool)
        ensures
            res == has_bios_md5(self.bios_files, hash@),
    {
        match &self.bios_files {
            Some(v) => {
                let mut i: usize = 0;
                while i < v.len()
                    invariant
                        self.bios_files == Some(*v),
                        i <= v@.len(),
                        forall|a: int, b: int|
                            0 <= a < i && 0 <= b < v@[a].1@.len() ==> (#[trigger] v@[a].1@[b])@
                                != hash@,
                    decreases v@.len() - i,
                {
                    let hashes = &v[i].1;
                    let mut j: usize = 0;
                    while j < hashes.len()
                        invariant
                            self.bios_files == Some(*v),
                            i < v@.len(),
                            hashes == &v@[i as int].1,
                            j <= hashes@.len(),
                            forall|b: int| 0 <= b < j ==> (#[trigger] hashes@[b])@ != hash@,
                        decreases hashes@.len() - j,
                    {
                        if str_eq(hashes[j].as_str(), hash) {
                            proof {
                                let ii = i as int;
                                let jj = j as int;
                                let bv = self.bios_files->Some_0;
                                assert(bv == *v);
                                assert(0 <= ii < bv@.len() && 0 <= jj < bv@[ii].1@.len() && bv@[ii].1@[jj]@
                                    == hash@);
                            }
                            return true;
                        }
                        j = j + 1;
                    }
                    i = i + 1;
                }
                false
            },
            None => false,
        }
    }
}

/// The platforms of a Stone database, and its version.
pub struct StonePlatforms {
    pub platforms: Vec<PlatformInfo>,
    pub stone_version: String,
}

/// Whether no two of the platforms have the same ID.
pub open spec fn distinct_ids(v: Seq<PlatformInfo>) -> bool {
    forall|a: int, b: int|
        0 <= a < b < v.len() ==> (#[trigger] v[a]).platform_id.0@ != (#[trigger] v[b]).platform_id.0@
}

impl PlatformInfo {
    /// No two file types have the same extension.
    pub open spec fn well_formed(&self) -> bool {
        distinct_keys(pair_views(self.file_types@))
    }
}

impl StonePlatforms {
    /// No two platforms have the same ID, and each platform is well formed.
    pub open spec fn well_formed(&self) -> bool {
        &&& distinct_ids(self.platforms@)
        &&& forall|i: int| 0 <= i < self.platforms@.len() ==> (#[trigger] self.platforms@[i]).well_formed()
    }
}

/// The index of the first platform, from `i` on, with the ID `id`.
pub open spec fn platform_index(v: Seq<PlatformInfo>, id: Seq<char>, i: int) -> Option<int>
    decreases v.len() - i,
{
    if i < 0 || i >= v.len() {
        None
    } else if v[i].platform_id.0@ == id {
        Some(i)
    } else {
        platform_index(v, id, i + 1)
    }
}

impl StonePlatforms {
    /// The database made of these platforms, at this version.
    pub fn new(platforms: Vec<PlatformInfo>, stone_version: String) -> (res: StonePlatforms)
        requires
            distinct_ids(platforms@),
            forall|i: int| 0 <= i < platforms@.len() ==> (#[trigger] platforms@[i]).well_formed(),
        ensures
            res.platforms@ == platforms@,
            res.stone_version@ == stone_version@,
            res.well_formed(),
    {
        StonePlatforms { platforms, stone_version }
    }

    fn find_platform(&self, id: &str) -> (res: Option<usize>)
        ensures
            match res {
                Some(i) => platform_index(self.platforms@, id@, 0) == Some(i as int) && i
                    < self.platforms@.len() && self.platforms@[i as int].platform_id.0@ == id@,
                None => platform_index(self.platforms@, id@, 0) is None,
            },
    {
        let mut i: usize = 0;
        while i < self.platforms.len()
            invariant
                i <= self.platforms@.len(),
                platform_index(self.platforms@, id@, 0) == platform_index(
                    self.platforms@,
                    id@,
                    i as int,
                ),
            decreases self.platforms@.len() - i,
        {
            if str_eq(self.platforms[i].platform_id.as_ref(), id) {
                return Some(i);
            }
            i = i + 1;
        }
        None
    }

    /// The platform ID written `id`, if there is a platform with it.
    pub fn get_platform_id_ref(&self, id: &str) -> (res: Option<&PlatformId>)
        ensures
            match res {
                Some(p) => platform_index(self.platforms@, id@, 0) matches Some(i) && p
                    == &self.platforms@[i].platform_id,
                None => platform_index(self.platforms@, id@, 0) is None,
            },
    {
        match self.find_platform(id) {
            Some(i) => Some(&self.platforms[i].platform_id),
            None => None,
        }
    }

    /// The platform with the ID `platform_id`; `NoSuchPlatform` where there is none.
    pub fn platform(&self, platform_id: &PlatformId) -> (res: Result<&PlatformInfo, StoneError>)
        ensures
            match res {
                Ok(p) => platform_index(self.platforms@, platform_id.0@, 0) matches Some(i) && p
                    == &self.platforms@[i],
                Err(e) => {
                    &&& platform_index(self.platforms@, platform_id.0@, 0) is None
                    &&& e matches StoneError::NoSuchPlatform(q) && q.0@ == platform_id.0@
                },
            },
    {
        match self.find_platform(platform_id.as_ref()) {
            Some(i) => Ok(&self.platforms[i]),
            None => Err(StoneError::NoSuchPlatform(platform_id.copy())),
        }
    }

    /// The IDs of the platforms, in order.
    pub fn ids(&self) -> (res: Vec<PlatformId>)
        ensures
            res@.len() == self.platforms@.len(),
            forall|i: int| 0 <= i < res@.len() ==> res@[i].0@ == self.platforms@[i].platform_id.0@,
            self.well_formed() ==> forall|a: int, b: int|
                0 <= a < b < res@.len() ==> (#[trigger] res@[a]).0@ != (#[trigger] res@[b]).0@,
    {
        let mut res: Vec<PlatformId> = Vec::new();
        let mut i: usize = 0;
        while i < self.platforms.len()
            invariant
                i <= self.platforms@.len(),
                res@.len() == i,
                forall|j: int| 0 <= j < i ==> res@[j].0@ == self.platforms@[j].platform_id.0@,
            decreases self.platforms@.len() - i,
        {
            res.push(self.platforms[i].platform_id.copy());
            i = i + 1;
        }
        res
    }

    /// The version of the database.
    pub fn version(&self) -> (res: &str)
        ensures
            res@ == self.stone_version@,
    {
        self.stone_version.as_str()
    }

    /// The platform ID written `id`; `InvalidPlatformId` where no platform has it.
    pub fn try_platform_id(&self, id: &str) -> (res: Result<PlatformId, StoneError>)
        ensures
            match res {
                Ok(p) => platform_index(self.platforms@, id@, 0) is Some && p.0@ == id@,
                Err(e) => {
                    &&& platform_index(self.platforms@, id@, 0) is None
                    &&& e matches StoneError::InvalidPlatformId(s) && s@ == id@
                },
            },
    {
        match self.find_platform(id) {
            Some(i) => Ok(self.platforms[i].platform_id.copy()),
            None => Err(StoneError::InvalidPlatformId(crate::text::owned(id))),
        }
    }
}

} // verus!

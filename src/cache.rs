//! The compile cache: the content-addressed key of a job, and the choice of
//! entries that eviction removes.
use vstd::prelude::*;
use crate::models::{FileRequest, JobRequest};
use crate::text::{join_path, join_spec};
use sha2::Digest;

verus! {

/// The digest SHA-256 gives of `m`.
pub uninterp spec fn sha256_spec(m: Seq<u8>) -> Seq<u8>;

/// Relies on `sha2::Sha256::digest`: the 32-byte SHA-256 digest of the input.
#[verifier::external_body]
fn sha256(m: &[u8]) -> (r: Vec<u8>)
    ensures
        r@ == sha256_spec(m@),
        r@.len() == 32,
{
    sha2::Sha256::digest(m).to_vec()
}

/// The lowercase hexadecimal digit for `d < 16`.
pub open spec fn hex_digit(d: int) -> char {
    if d < 10 {
        ((d + 0x30) as u8) as char
    } else {
        ((d - 10 + 0x61) as u8) as char
    }
}

/// Two lowercase hexadecimal digits per byte, high nibble first.
pub open spec fn hex_spec(b: Seq<u8>) -> Seq<char>
    decreases b.len(),
{
    if b.len() == 0 {
        Seq::empty()
    } else {
        seq![hex_digit(b[0] as int / 16), hex_digit(b[0] as int % 16)] + hex_spec(b.drop_first())
    }
}

/// Relies on `hex::encode`: each byte as two lowercase hexadecimal digits,
/// high nibble first.
#[verifier::external_body]
fn to_hex(b: &[u8]) -> (r: String)
    ensures
        r@ == hex_spec(b@),
{
    hex::encode(b)
}

/// The UTF-8 bytes of a text.
pub open spec fn utf8(s: Seq<char>) -> Seq<u8> {
    vstd::utf8::encode_utf8(s)
}

/// The sort key of a file: its name's bytes; a file without a name sorts first.
pub open spec fn name_key(f: FileRequest) -> Option<Seq<u8>> {
    match f.name {
        Some(n) => Some(utf8(n@)),
        None => None,
    }
}

/// Byte-wise lexicographic order, as `str`'s `Ord` has it.
pub open spec fn bytes_lt(a: Seq<u8>, b: Seq<u8>) -> bool
    decreases a.len(),
{
    if a.len() == 0 {
        b.len() > 0
    } else if b.len() == 0 {
        false
    } else if a[0] != b[0] {
        a[0] < b[0]
    } else {
        bytes_lt(a.drop_first(), b.drop_first())
    }
}

/// The order of optional names: no name first, then by bytes.
pub open spec fn key_lt(a: Option<Seq<u8>>, b: Option<Seq<u8>>) -> bool {
    match (a, b) {
        (None, Some(_)) => true,
        (Some(x), Some(y)) => bytes_lt(x, y),
        _ => false,
    }
}

/// The first position at or after `p` in `order` whose file sorts after file `j`.
pub open spec fn insert_pos(keys: Seq<Option<Seq<u8>>>, order: Seq<int>, j: int, p: int) -> int
    decreases order.len() - p,
{
    if 0 <= p < order.len() && !key_lt(keys[j], keys[order[p]]) {
        insert_pos(keys, order, j, p + 1)
    } else {
        p
    }
}

/// The order of the first `n` files after a stable sort by name.
pub open spec fn sorted_order(keys: Seq<Option<Seq<u8>>>, n: int) -> Seq<int>
    decreases n,
{
    if n <= 0 {
        Seq::empty()
    } else {
        let prev = sorted_order(keys, n - 1);
        prev.insert(insert_pos(keys, prev, n - 1, 0), n - 1)
    }
}

proof fn lemma_insert_pos_bounds(keys: Seq<Option<Seq<u8>>>, order: Seq<int>, j: int, p: int)
    requires
        0 <= p <= order.len(),
    ensures
        p <= insert_pos(keys, order, j, p) <= order.len(),
    decreases order.len() - p,
{
    if p < order.len() && !key_lt(keys[j], keys[order[p]]) {
        lemma_insert_pos_bounds(keys, order, j, p + 1);
    }
}

/// The stable sort by name of the first `n` files: its length, and each entry a file index.
pub proof fn lemma_sorted_order_indices(keys: Seq<Option<Seq<u8>>>, n: int)
    requires
        0 <= n,
    ensures
        sorted_order(keys, n).len() == n,
        forall|k: int| 0 <= k < n ==> 0 <= #[trigger] sorted_order(keys, n)[k] < n,
    decreases n,
{
    if n > 0 {
        lemma_sorted_order_indices(keys, n - 1);
        let prev = sorted_order(keys, n - 1);
        lemma_insert_pos_bounds(keys, prev, n - 1, 0);
        let p = insert_pos(keys, prev, n - 1, 0);
        assert forall|k: int| 0 <= k < n implies 0 <= #[trigger] sorted_order(keys, n)[k] < n by {
            if k < p {
                assert(sorted_order(keys, n)[k] == prev[k]);
            } else if k > p {
                assert(sorted_order(keys, n)[k] == prev[k - 1]);
            }
        }
    }
}

/// The name a file is written under: its own, else `main`.
pub open spec fn file_name(f: FileRequest) -> Seq<char> {
    match f.name {
        Some(n) => n@,
        None => "main"@,
    }
}

/// The version directory a request asks for: its own, else `latest`.
pub open spec fn version_or_latest(r: JobRequest) -> Seq<char> {
    match r.version {
        Some(v) => v@,
        None => "latest"@,
    }
}

/// The names and contents of `files` taken in `order`, concatenated.
pub open spec fn files_bytes(files: Seq<FileRequest>, order: Seq<int>) -> Seq<u8>
    decreases order.len(),
{
    if order.len() == 0 {
        Seq::empty()
    } else {
        files_bytes(files, order.drop_last()) + utf8(file_name(files[order.last()])) + utf8(
            files[order.last()].content@,
        )
    }
}

/// The keys of `files`.
pub open spec fn name_keys(files: Seq<FileRequest>) -> Seq<Option<Seq<u8>>> {
    files.map_values(|f: FileRequest| name_key(f))
}

/// The bytes a cache key digests: language, version (or `latest`), the
/// compile script, then each file's name (or `main`) and content, files
/// sorted by name.
pub open spec fn cache_message(r: JobRequest, script: Seq<char>) -> Seq<u8> {
    utf8(r.language@) + utf8(version_or_latest(r)) + utf8(script) + files_bytes(
        r.files@,
        sorted_order(name_keys(r.files@), r.files@.len() as int),
    )
}

/// The cache key of a request with the given compile script: the hex SHA-256
/// of its cache message.
pub open spec fn cache_key_spec(r: JobRequest, script: Seq<char>) -> Seq<char> {
    hex_spec(sha256_spec(cache_message(r, script)))
}

fn str_bytes(s: &str) -> (r: &[u8])
    ensures
        r@ == utf8(s@),
{
    s.as_bytes()
}

fn append_bytes(v: &mut Vec<u8>, s: &[u8])
    ensures
        final(v)@ == old(v)@ + s@,
{
    let mut i: usize = 0;
    while i < s.len()
        invariant
            i <= s@.len(),
            v@ == old(v)@ + s@.take(i as int),
        decreases s@.len() - i,
    {
        v.push(s[i]);
        i = i + 1;
        assert(s@.take(i as int) =~= s@.take(i - 1) + seq![s@[i - 1]]);
    }
    assert(s@.take(i as int) =~= s@);
}

/// Whether `a` comes before `b` byte by byte.
pub fn bytes_less(a: &[u8], b: &[u8]) -> (r: bool)
    ensures
        r == bytes_lt(a@, b@),
{
    let mut i: usize = 0;
    assert(a@.skip(0) =~= a@);
    assert(b@.skip(0) =~= b@);
    while i < a.len() && i < b.len() && a[i] == b[i]
        invariant
            i <= a@.len(),
            i <= b@.len(),
            bytes_lt(a@.skip(i as int), b@.skip(i as int)) == bytes_lt(a@, b@),
        decreases a@.len() - i,
    {
        assert(a@.skip(i as int).drop_first() =~= a@.skip(i + 1));
        assert(b@.skip(i as int).drop_first() =~= b@.skip(i + 1));
        i = i + 1;
    }
    if i == a.len() {
        i < b.len()
    } else if i == b.len() {
        false
    } else {
        a[i] < b[i]
    }
}

fn name_less(a: &Option<String>, b: &Option<String>) -> (r: bool)
    ensures
        r == key_lt(
            match a {
                Some(x) => Some(utf8(x@)),
                None => None,
            },
            match b {
                Some(y) => Some(utf8(y@)),
                None => None,
            },
        ),
{
    match (a, b) {
        (None, Some(_)) => true,
        (Some(x), Some(y)) => bytes_less(str_bytes(x.as_str()), str_bytes(y.as_str())),
        _ => false,
    }
}

/// The file indices of `files` in a stable sort by name.
pub fn sort_by_name(files: &Vec<FileRequest>) -> (r: Vec<usize>)
    ensures
        r@.map_values(|i: usize| i as int) == sorted_order(name_keys(files@), files@.len() as int),
{
    let ghost keys = name_keys(files@);
    let mut order: Vec<usize> = Vec::new();
    let mut j: usize = 0;
    while j < files.len()
        invariant
            j <= files@.len(),
            keys == name_keys(files@),
            order@.map_values(|i: usize| i as int) == sorted_order(keys, j as int),
            forall|k: int| 0 <= k < order@.len() ==> #[trigger] order@[k] < j,
        decreases files@.len() - j,
    {
        let ghost prev = order@.map_values(|i: usize| i as int);
        let mut p: usize = 0;
        while p < order.len() && !name_less(&files[j].name, &files[order[p]].name)
            invariant
                p <= order@.len(),
                j < files@.len(),
                keys == name_keys(files@),
                prev == order@.map_values(|i: usize| i as int),
                forall|k: int| 0 <= k < order@.len() ==> #[trigger] order@[k] < j,
                insert_pos(keys, prev, j as int, p as int) == insert_pos(keys, prev, j as int, 0),
            decreases order@.len() - p,
        {
            p = p + 1;
        }
        assert(insert_pos(keys, prev, j as int, p as int) == p);
        order.insert(p, j);
        proof {
            assert(order@.map_values(|i: usize| i as int) =~= prev.insert(p as int, j as int));
        }
        j = j + 1;
    }
    order
}

/// The bytes a cache key digests (see `cache_message`).
pub fn cache_message_bytes(req: &JobRequest, script: &str) -> (r: Vec<u8>)
    ensures
        r@ == cache_message(*req, script@),
{
    let mut m: Vec<u8> = Vec::new();
    append_bytes(&mut m, str_bytes(req.language.as_str()));
    match &req.version {
        Some(v) => append_bytes(&mut m, str_bytes(v.as_str())),
        None => append_bytes(&mut m, str_bytes("latest")),
    }
    append_bytes(&mut m, str_bytes(script));
    let ghost head = m@;
    let order = sort_by_name(&req.files);
    let ghost gorder = order@.map_values(|i: usize| i as int);
    proof {
        lemma_sorted_order_indices(name_keys(req.files@), req.files@.len() as int);
    }
    let mut k: usize = 0;
    while k < order.len()
        invariant
            k <= order@.len(),
            gorder == order@.map_values(|i: usize| i as int),
            gorder == sorted_order(name_keys(req.files@), req.files@.len() as int),
            gorder.len() == req.files@.len(),
            forall|q: int| 0 <= q < gorder.len() ==> 0 <= #[trigger] gorder[q] < req.files@.len(),
            m@ == head + files_bytes(req.files@, gorder.take(k as int)),
        decreases order@.len() - k,
    {
        let idx = order[k];
        assert(gorder[k as int] == idx as int);
        let f = &req.files[idx];
        match &f.name {
            Some(n) => append_bytes(&mut m, str_bytes(n.as_str())),
            None => append_bytes(&mut m, str_bytes("main")),
        }
        append_bytes(&mut m, str_bytes(f.content.as_str()));
        proof {
            let t = gorder.take(k + 1);
            assert(t.drop_last() =~= gorder.take(k as int));
            assert(t.last() == idx as int);
        }
        k = k + 1;
    }
    assert(gorder.take(k as int) =~= gorder);
    m
}

/// Whether `c` is a lowercase hexadecimal digit.
pub open spec fn is_lower_hex(c: char) -> bool {
    ('0' <= c && c <= '9') || ('a' <= c && c <= 'f')
}

/// Hex text is two lowercase hexadecimal digits per byte.
pub proof fn lemma_hex_spec(b: Seq<u8>)
    ensures
        hex_spec(b).len() == 2 * b.len(),
        forall|i: int| 0 <= i < hex_spec(b).len() ==> is_lower_hex(#[trigger] hex_spec(b)[i]),
    decreases b.len(),
{
    if b.len() > 0 {
        lemma_hex_spec(b.drop_first());
        let h = seq![hex_digit(b[0] as int / 16), hex_digit(b[0] as int % 16)];
        assert(is_lower_hex(h[0]) && is_lower_hex(h[1]));
        assert forall|i: int| 0 <= i < hex_spec(b).len() implies is_lower_hex(#[trigger] hex_spec(b)[i]) by {
            if i >= 2 {
                assert(hex_spec(b)[i] == hex_spec(b.drop_first())[i - 2]);
            }
        }
    }
}

/// The cache key of a request with the given compile script: 64 lowercase
/// hexadecimal digits.
pub fn cache_key(req: &JobRequest, script: &str) -> (r: String)
    ensures
        r@ == cache_key_spec(*req, script@),
        r@.len() == 64,
        forall|i: int| 0 <= i < r@.len() ==> is_lower_hex(#[trigger] r@[i]),
{
    let m = cache_message_bytes(req, script);
    let d = sha256(m.as_slice());
    proof {
        lemma_hex_spec(d@);
    }
    to_hex(d.as_slice())
}

/// A file as the cache key sees it: the name it is written under and its content.
pub open spec fn file_pair(f: FileRequest) -> (Seq<char>, Seq<char>) {
    (file_name(f), f.content@)
}

/// The files of a request as (name, content) pairs, sorted by name.
pub open spec fn normalized_files(r: JobRequest) -> Seq<(Seq<char>, Seq<char>)> {
    sorted_order(name_keys(r.files@), r.files@.len() as int).map_values(
        |i: int| file_pair(r.files@[i]),
    )
}

/// The names and contents of `pairs`, concatenated.
pub open spec fn pairs_bytes(pairs: Seq<(Seq<char>, Seq<char>)>) -> Seq<u8>
    decreases pairs.len(),
{
    if pairs.len() == 0 {
        Seq::empty()
    } else {
        pairs_bytes(pairs.drop_last()) + utf8(pairs.last().0) + utf8(pairs.last().1)
    }
}

proof fn lemma_files_bytes_pairs(files: Seq<FileRequest>, order: Seq<int>)
    ensures
        files_bytes(files, order) == pairs_bytes(order.map_values(|i: int| file_pair(files[i]))),
    decreases order.len(),
{
    if order.len() > 0 {
        lemma_files_bytes_pairs(files, order.drop_last());
        assert(order.drop_last().map_values(|i: int| file_pair(files[i])) =~= order.map_values(
            |i: int| file_pair(files[i]),
        ).drop_last());
    }
}

/// Two requests with the same language, version (or `latest`), compile
/// script and name-sorted files get the same cache key, whatever order
/// their files came in.
pub proof fn lemma_cache_key_deterministic(r1: JobRequest, s1: Seq<char>, r2: JobRequest, s2: Seq<char>)
    requires
        r1.language@ == r2.language@,
        version_or_latest(r1) == version_or_latest(r2),
        s1 == s2,
        normalized_files(r1) == normalized_files(r2),
    ensures
        cache_key_spec(r1, s1) == cache_key_spec(r2, s2),
{
    lemma_files_bytes_pairs(r1.files@, sorted_order(name_keys(r1.files@), r1.files@.len() as int));
    lemma_files_bytes_pairs(r2.files@, sorted_order(name_keys(r2.files@), r2.files@.len() as int));
    assert(cache_message(r1, s1) == cache_message(r2, s2));
}

proof fn lemma_bytes_lt_irreflexive(a: Seq<u8>)
    ensures
        !bytes_lt(a, a),
    decreases a.len(),
{
    if a.len() > 0 {
        lemma_bytes_lt_irreflexive(a.drop_first());
    }
}

proof fn lemma_bytes_lt_transitive(a: Seq<u8>, b: Seq<u8>, c: Seq<u8>)
    requires
        bytes_lt(a, b),
        bytes_lt(b, c),
    ensures
        bytes_lt(a, c),
    decreases a.len(),
{
    if a.len() > 0 && b.len() > 0 && c.len() > 0 && a[0] == b[0] && b[0] == c[0] {
        lemma_bytes_lt_transitive(a.drop_first(), b.drop_first(), c.drop_first());
    }
}

proof fn lemma_bytes_lt_total(a: Seq<u8>, b: Seq<u8>)
    requires
        a != b,
    ensures
        bytes_lt(a, b) || bytes_lt(b, a),
    decreases a.len(),
{
    if a.len() > 0 && b.len() > 0 && a[0] == b[0] {
        if a.drop_first() == b.drop_first() {
            assert(a =~= seq![a[0]] + a.drop_first());
            assert(b =~= seq![b[0]] + b.drop_first());
        }
        lemma_bytes_lt_total(a.drop_first(), b.drop_first());
    } else if a.len() == 0 && b.len() == 0 {
        assert(a =~= b);
    }
}

/// Byte-wise order is a strict total order.
pub proof fn lemma_bytes_order()
    ensures
        forall|a: Seq<u8>| !#[trigger] bytes_lt(a, a),
        forall|a: Seq<u8>, b: Seq<u8>, c: Seq<u8>|
            #[trigger] bytes_lt(a, b) && #[trigger] bytes_lt(b, c) ==> bytes_lt(a, c),
        forall|a: Seq<u8>, b: Seq<u8>| a != b ==> #[trigger] bytes_lt(a, b) || #[trigger] bytes_lt(b, a),
{
    assert forall|a: Seq<u8>| !#[trigger] bytes_lt(a, a) by {
        lemma_bytes_lt_irreflexive(a);
    }
    assert forall|a: Seq<u8>, b: Seq<u8>, c: Seq<u8>|
        #[trigger] bytes_lt(a, b) && #[trigger] bytes_lt(b, c) implies bytes_lt(a, c) by {
        lemma_bytes_lt_transitive(a, b, c);
    }
    assert forall|a: Seq<u8>, b: Seq<u8>| a != b implies #[trigger] bytes_lt(a, b) || #[trigger] bytes_lt(b, a) by {
        lemma_bytes_lt_total(a, b);
    }
}

proof fn lemma_key_lt_order()
    ensures
        forall|a: Option<Seq<u8>>| !#[trigger] key_lt(a, a),
        forall|a: Option<Seq<u8>>, b: Option<Seq<u8>>, c: Option<Seq<u8>>|
            #[trigger] key_lt(a, b) && #[trigger] key_lt(b, c) ==> key_lt(a, c),
        forall|a: Option<Seq<u8>>, b: Option<Seq<u8>>|
            a != b ==> #[trigger] key_lt(a, b) || #[trigger] key_lt(b, a),
{
    assert forall|a: Option<Seq<u8>>| !#[trigger] key_lt(a, a) by {
        if a is Some {
            lemma_bytes_lt_irreflexive(a->0);
        }
    }
    assert forall|a: Option<Seq<u8>>, b: Option<Seq<u8>>, c: Option<Seq<u8>>|
        #[trigger] key_lt(a, b) && #[trigger] key_lt(b, c) implies key_lt(a, c) by {
        if a is Some && b is Some && c is Some {
            lemma_bytes_lt_transitive(a->0, b->0, c->0);
        }
    }
    assert forall|a: Option<Seq<u8>>, b: Option<Seq<u8>>|
        a != b implies #[trigger] key_lt(a, b) || #[trigger] key_lt(b, a) by {
        if a is Some && b is Some {
            lemma_bytes_lt_total(a->0, b->0);
        }
    }
}

proof fn lemma_insert_pos_splits(keys: Seq<Option<Seq<u8>>>, order: Seq<int>, j: int, p: int)
    requires
        0 <= p <= order.len(),
    ensures
        forall|k: int| p <= k < insert_pos(keys, order, j, p) ==> !key_lt(keys[j], #[trigger] keys[order[k]]),
        insert_pos(keys, order, j, p) < order.len() ==> key_lt(keys[j], keys[order[insert_pos(keys, order, j, p)]]),
    decreases order.len() - p,
{
    if p < order.len() && !key_lt(keys[j], keys[order[p]]) {
        lemma_insert_pos_splits(keys, order, j, p + 1);
    }
}

/// Whether `order` lists indices in non-decreasing key order.
pub open spec fn keys_sorted(keys: Seq<Option<Seq<u8>>>, order: Seq<int>) -> bool {
    forall|p: int, q: int| 0 <= p < q < order.len() ==> !key_lt(#[trigger] keys[order[q]], #[trigger] keys[order[p]])
}

proof fn lemma_sorted_order_sorted(keys: Seq<Option<Seq<u8>>>, n: int)
    requires
        0 <= n,
    ensures
        keys_sorted(keys, sorted_order(keys, n)),
        forall|p: int, q: int| 0 <= p < q < n ==> #[trigger] sorted_order(keys, n)[p] != #[trigger] sorted_order(keys, n)[q],
    decreases n,
{
    if n > 0 {
        lemma_sorted_order_sorted(keys, n - 1);
        lemma_sorted_order_indices(keys, n - 1);
        lemma_key_lt_order();
        let prev = sorted_order(keys, n - 1);
        let pos = insert_pos(keys, prev, n - 1, 0);
        lemma_insert_pos_bounds(keys, prev, n - 1, 0);
        lemma_insert_pos_splits(keys, prev, n - 1, 0);
        let cur = sorted_order(keys, n);
        assert(cur == prev.insert(pos, n - 1));
        assert forall|p: int, q: int| 0 <= p < q < cur.len() implies !key_lt(#[trigger] keys[cur[q]], #[trigger] keys[cur[p]]) by {
            if q < pos {
                assert(cur[p] == prev[p] && cur[q] == prev[q]);
            } else if q == pos {
                assert(cur[p] == prev[p]);
            } else if p > pos {
                assert(cur[p] == prev[p - 1] && cur[q] == prev[q - 1]);
            } else if p == pos {
                assert(cur[q] == prev[q - 1]);
                assert(key_lt(keys[n - 1], keys[prev[pos]]));
                if q - 1 > pos {
                    assert(!key_lt(keys[prev[q - 1]], keys[prev[pos]]));
                }
            } else {
                assert(cur[p] == prev[p] && cur[q] == prev[q - 1]);
            }
        }
        assert forall|p: int, q: int| 0 <= p < q < n implies #[trigger] cur[p] != #[trigger] cur[q] by {
            if q < pos {
                assert(cur[p] == prev[p] && cur[q] == prev[q]);
            } else if q == pos {
                assert(cur[p] == prev[p]);
            } else if p > pos {
                assert(cur[p] == prev[p - 1] && cur[q] == prev[q - 1]);
            } else if p == pos {
                assert(cur[q] == prev[q - 1]);
            } else {
                assert(cur[p] == prev[p] && cur[q] == prev[q - 1]);
            }
        }
    }
}

/// A file as sorting sees it: its optional name and its content.
pub open spec fn file_item(f: FileRequest) -> (Option<Seq<char>>, Seq<char>) {
    (
        match f.name {
            Some(n) => Some(n@),
            None => None,
        },
        f.content@,
    )
}

/// The sort key of an item.
pub open spec fn item_key(it: (Option<Seq<char>>, Seq<char>)) -> Option<Seq<u8>> {
    match it.0 {
        Some(n) => Some(utf8(n)),
        None => None,
    }
}

/// The (name written, content) pair of an item.
pub open spec fn item_pair(it: (Option<Seq<char>>, Seq<char>)) -> (Seq<char>, Seq<char>) {
    (
        match it.0 {
            Some(n) => n,
            None => "main"@,
        },
        it.1,
    )
}

/// The items of a request's files, in request order.
pub open spec fn file_items(files: Seq<FileRequest>) -> Seq<(Option<Seq<char>>, Seq<char>)> {
    files.map_values(|f: FileRequest| file_item(f))
}

/// Whether no two files of `files` share a name (two unnamed files count as sharing one).
pub open spec fn distinct_names(files: Seq<FileRequest>) -> bool {
    forall|i: int, j: int| 0 <= i < j < files.len() ==> #[trigger] name_key(files[i]) != #[trigger] name_key(files[j])
}

proof fn lemma_sorted_items_multiset(items: Seq<(Option<Seq<char>>, Seq<char>)>, keys: Seq<Option<Seq<u8>>>, n: int)
    requires
        0 <= n <= items.len(),
    ensures
        sorted_order(keys, n).map_values(|i: int| items[i]).to_multiset() == items.take(n).to_multiset(),
    decreases n,
{
    broadcast use vstd::seq_lib::to_multiset_insert, vstd::seq_lib::to_multiset_build;
    if n == 0 {
        assert(sorted_order(keys, n).map_values(|i: int| items[i]) =~= Seq::<(Option<Seq<char>>, Seq<char>)>::empty());
        assert(items.take(0) =~= Seq::<(Option<Seq<char>>, Seq<char>)>::empty());
    } else {
        lemma_sorted_items_multiset(items, keys, n - 1);
        let prev = sorted_order(keys, n - 1);
        let pos = insert_pos(keys, prev, n - 1, 0);
        lemma_insert_pos_bounds(keys, prev, n - 1, 0);
        assert(sorted_order(keys, n).map_values(|i: int| items[i]) =~= prev.map_values(|i: int| items[i]).insert(pos, items[n - 1]));
        assert(items.take(n) =~= items.take(n - 1).push(items[n - 1]));
    }
}

proof fn lemma_strictly_sorted_unique(a: Seq<(Option<Seq<char>>, Seq<char>)>, b: Seq<(Option<Seq<char>>, Seq<char>)>)
    requires
        a.to_multiset() == b.to_multiset(),
        forall|p: int, q: int| 0 <= p < q < a.len() ==> key_lt(item_key(#[trigger] a[p]), item_key(#[trigger] a[q])),
        forall|p: int, q: int| 0 <= p < q < b.len() ==> key_lt(item_key(#[trigger] b[p]), item_key(#[trigger] b[q])),
    ensures
        a == b,
    decreases a.len(),
{
    broadcast use vstd::seq_lib::to_multiset_len, vstd::seq_lib::to_multiset_contains, vstd::seq_lib::to_multiset_remove;
    lemma_key_lt_order();
    assert(a.len() == a.to_multiset().len());
    assert(b.len() == b.to_multiset().len());
    if a.len() == 0 {
        assert(a =~= b);
    } else {
        assert(a.contains(a[0]));
        assert(a.to_multiset().count(a[0]) > 0);
        assert(b.contains(a[0]));
        let q = choose|q: int| 0 <= q < b.len() && b[q] == a[0];
        assert(b.contains(b[0]));
        assert(b.to_multiset().count(b[0]) > 0);
        assert(a.contains(b[0]));
        let p = choose|p: int| 0 <= p < a.len() && a[p] == b[0];
        if q > 0 {
            assert(key_lt(item_key(b[0]), item_key(b[q])));
            if p > 0 {
                assert(key_lt(item_key(a[0]), item_key(a[p])));
            }
            assert(false);
        }
        assert(a[0] == b[0]);
        assert(a.remove(0) =~= a.drop_first());
        assert(b.remove(0) =~= b.drop_first());
        assert(a.remove(0).to_multiset() == a.to_multiset().remove(a[0]));
        assert(b.remove(0).to_multiset() == b.to_multiset().remove(b[0]));
        let ta = a.drop_first();
        let tb = b.drop_first();
        assert forall|p: int, q: int| 0 <= p < q < ta.len() implies key_lt(item_key(#[trigger] ta[p]), item_key(#[trigger] ta[q])) by {
            assert(ta[p] == a[p + 1] && ta[q] == a[q + 1]);
        }
        assert forall|p: int, q: int| 0 <= p < q < tb.len() implies key_lt(item_key(#[trigger] tb[p]), item_key(#[trigger] tb[q])) by {
            assert(tb[p] == b[p + 1] && tb[q] == b[q + 1]);
        }
        lemma_strictly_sorted_unique(ta, tb);
        assert forall|k: int| 0 <= k < a.len() implies a[k] == b[k] by {
            if k > 0 {
                assert(a[k] == ta[k - 1]);
                assert(b[k] == tb[k - 1]);
            }
        }
        assert(a =~= b);
    }
}

/// The items of `files` in name order.
pub open spec fn sorted_items(files: Seq<FileRequest>) -> Seq<(Option<Seq<char>>, Seq<char>)> {
    sorted_order(name_keys(files), files.len() as int).map_values(|i: int| file_items(files)[i])
}

proof fn lemma_sorted_items_strict(files: Seq<FileRequest>)
    requires
        distinct_names(files),
    ensures
        forall|p: int, q: int| 0 <= p < q < files.len() ==> key_lt(
            item_key(#[trigger] sorted_items(files)[p]),
            item_key(#[trigger] sorted_items(files)[q]),
        ),
{
    let keys = name_keys(files);
    let n = files.len() as int;
    let o = sorted_order(keys, n);
    lemma_sorted_order_indices(keys, n);
    lemma_sorted_order_sorted(keys, n);
    lemma_key_lt_order();
    let t = sorted_items(files);
    assert forall|p: int, q: int| 0 <= p < q < n implies key_lt(item_key(#[trigger] t[p]), item_key(#[trigger] t[q])) by {
        assert(0 <= o[p] < n && 0 <= o[q] < n);
        assert(o[p] != o[q]);
        assert(item_key(t[p]) == keys[o[p]]);
        assert(item_key(t[q]) == keys[o[q]]);
        if o[p] < o[q] {
            assert(name_key(files[o[p]]) != name_key(files[o[q]]));
        } else {
            assert(name_key(files[o[q]]) != name_key(files[o[p]]));
        }
        assert(!key_lt(keys[o[q]], keys[o[p]]));
    }
}

/// Two requests whose files are the same up to order, no two of them
/// sharing a name, have the same name-sorted files.
pub proof fn lemma_file_order_irrelevant(r1: JobRequest, r2: JobRequest)
    requires
        file_items(r1.files@).to_multiset() == file_items(r2.files@).to_multiset(),
        distinct_names(r1.files@),
        distinct_names(r2.files@),
    ensures
        normalized_files(r1) == normalized_files(r2),
{
    broadcast use vstd::seq_lib::to_multiset_len;
    let f1 = r1.files@;
    let f2 = r2.files@;
    let t1 = sorted_items(f1);
    let t2 = sorted_items(f2);
    lemma_sorted_items_multiset(file_items(f1), name_keys(f1), f1.len() as int);
    lemma_sorted_items_multiset(file_items(f2), name_keys(f2), f2.len() as int);
    assert(file_items(f1).take(f1.len() as int) =~= file_items(f1));
    assert(file_items(f2).take(f2.len() as int) =~= file_items(f2));
    lemma_sorted_order_indices(name_keys(f1), f1.len() as int);
    lemma_sorted_order_indices(name_keys(f2), f2.len() as int);
    lemma_sorted_items_strict(f1);
    lemma_sorted_items_strict(f2);
    lemma_strictly_sorted_unique(t1, t2);
    assert(normalized_files(r1) =~= t1.map_values(|it: (Option<Seq<char>>, Seq<char>)| item_pair(it)));
    assert(normalized_files(r2) =~= t2.map_values(|it: (Option<Seq<char>>, Seq<char>)| item_pair(it)));
}

/// Two requests for the same language, version (or `latest`) and compile
/// script, whose files are the same up to order with no two sharing a name,
/// get the same cache key.
pub proof fn lemma_cache_key_ignores_file_order(r1: JobRequest, r2: JobRequest, script: Seq<char>)
    requires
        r1.language@ == r2.language@,
        version_or_latest(r1) == version_or_latest(r2),
        file_items(r1.files@).to_multiset() == file_items(r2.files@).to_multiset(),
        distinct_names(r1.files@),
        distinct_names(r2.files@),
    ensures
        cache_key_spec(r1, script) == cache_key_spec(r2, script),
{
    lemma_file_order_irrelevant(r1, r2);
    lemma_cache_key_deterministic(r1, script, r2, script);
}

/// The most entries the cache keeps after a collection pass.
pub const MAX_CACHE_ENTRIES: usize = 500;

/// Where entry `j` goes among `order` when sorting by age: after every entry
/// that is not newer.
pub open spec fn age_pos(ts: Seq<u64>, order: Seq<int>, j: int, p: int) -> int
    decreases order.len() - p,
{
    if 0 <= p < order.len() && ts[order[p]] <= ts[j] {
        age_pos(ts, order, j, p + 1)
    } else {
        p
    }
}

/// The indices of the first `n` entries, oldest first (stable among equals).
pub open spec fn age_order(ts: Seq<u64>, n: int) -> Seq<int>
    decreases n,
{
    if n <= 0 {
        Seq::empty()
    } else {
        let prev = age_order(ts, n - 1);
        prev.insert(age_pos(ts, prev, n - 1, 0), n - 1)
    }
}

/// The entries a collection pass removes: none when there are at most
/// `max` entries, else the `len - max` oldest by modification time.
pub open spec fn evictions_spec(ts: Seq<u64>, max: int) -> Seq<int> {
    if ts.len() <= max {
        Seq::empty()
    } else {
        age_order(ts, ts.len() as int).take(ts.len() - max)
    }
}

proof fn lemma_age_pos(ts: Seq<u64>, order: Seq<int>, j: int, p: int)
    requires
        0 <= p <= order.len(),
    ensures
        p <= age_pos(ts, order, j, p) <= order.len(),
        forall|k: int| p <= k < age_pos(ts, order, j, p) ==> ts[#[trigger] order[k]] <= ts[j],
        age_pos(ts, order, j, p) < order.len() ==> ts[j] < ts[order[age_pos(ts, order, j, p)]],
    decreases order.len() - p,
{
    if p < order.len() && ts[order[p]] <= ts[j] {
        lemma_age_pos(ts, order, j, p + 1);
    }
}

/// Whether index `i` occurs in `o`.
pub open spec fn lists_index(o: Seq<int>, i: int) -> bool {
    exists|k: int| 0 <= k < o.len() && o[k] == i
}

/// Sorting by age lists every entry once, oldest first.
pub proof fn lemma_age_order(ts: Seq<u64>, n: int)
    requires
        0 <= n <= ts.len(),
    ensures
        age_order(ts, n).len() == n,
        forall|k: int| 0 <= k < n ==> 0 <= #[trigger] age_order(ts, n)[k] < n,
        forall|p: int, q: int| 0 <= p < q < n ==> #[trigger] age_order(ts, n)[p] != #[trigger] age_order(ts, n)[q],
        forall|i: int| 0 <= i < n ==> #[trigger] lists_index(age_order(ts, n), i),
        forall|p: int, q: int| 0 <= p < q < n ==> ts[#[trigger] age_order(ts, n)[p]] <= ts[#[trigger] age_order(ts, n)[q]],
    decreases n,
{
    if n > 0 {
        lemma_age_order(ts, n - 1);
        let prev = age_order(ts, n - 1);
        let pos = age_pos(ts, prev, n - 1, 0);
        lemma_age_pos(ts, prev, n - 1, 0);
        let cur = age_order(ts, n);
        assert(cur == prev.insert(pos, n - 1));
        assert forall|k: int| 0 <= k < n implies 0 <= #[trigger] cur[k] < n by {
            if k < pos {
                assert(cur[k] == prev[k]);
            } else if k > pos {
                assert(cur[k] == prev[k - 1]);
            }
        }
        assert forall|p: int, q: int| 0 <= p < q < n implies #[trigger] cur[p] != #[trigger] cur[q] by {
            if q < pos {
                assert(cur[p] == prev[p] && cur[q] == prev[q]);
            } else if q == pos {
                assert(cur[p] == prev[p]);
            } else if p > pos {
                assert(cur[p] == prev[p - 1] && cur[q] == prev[q - 1]);
            } else if p == pos {
                assert(cur[q] == prev[q - 1]);
            } else {
                assert(cur[p] == prev[p] && cur[q] == prev[q - 1]);
            }
        }
        assert forall|i: int| 0 <= i < n implies #[trigger] lists_index(cur, i) by {
            if i == n - 1 {
                assert(cur[pos] == i);
            } else {
                assert(lists_index(prev, i));
                let k = choose|k: int| 0 <= k < prev.len() && prev[k] == i;
                if k < pos {
                    assert(cur[k] == i);
                } else {
                    assert(cur[k + 1] == i);
                }
            }
        }
        assert forall|p: int, q: int| 0 <= p < q < n implies ts[#[trigger] cur[p]] <= ts[#[trigger] cur[q]] by {
            if q < pos {
                assert(cur[p] == prev[p] && cur[q] == prev[q]);
            } else if q == pos {
                assert(cur[p] == prev[p]);
            } else if p > pos {
                assert(cur[p] == prev[p - 1] && cur[q] == prev[q - 1]);
            } else if p == pos {
                assert(cur[q] == prev[q - 1]);
                if q - 1 > pos {
                    assert(ts[prev[pos]] <= ts[prev[q - 1]]);
                }
            } else {
                assert(cur[p] == prev[p] && cur[q] == prev[q - 1]);
            }
        }
    }
}

/// The indices of the cache entries to remove, given each entry's
/// modification time, so that `max` entries are left: the `len - max`
/// oldest, each once, none newer than an entry that stays.
pub fn select_evictions(mtimes: &Vec<u64>, max: usize) -> (r: Vec<usize>)
    ensures
        r@.map_values(|i: usize| i as int) == evictions_spec(mtimes@, max as int),
        r@.len() == (if mtimes@.len() > max { mtimes@.len() - max } else { 0 }),
        forall|k: int| 0 <= k < r@.len() ==> #[trigger] r@[k] < mtimes@.len(),
        forall|p: int, q: int| 0 <= p < q < r@.len() ==> #[trigger] r@[p] != #[trigger] r@[q],
        forall|k: int, i: int| 0 <= k < r@.len() && 0 <= i < mtimes@.len() && !r@.contains(i as usize)
            ==> mtimes@[#[trigger] r@[k] as int] <= #[trigger] mtimes@[i],
{
    if mtimes.len() <= max {
        let r: Vec<usize> = Vec::new();
        assert(r@.map_values(|i: usize| i as int) =~= Seq::<int>::empty());
        return r;
    }
    let mut order: Vec<usize> = Vec::new();
    let mut j: usize = 0;
    while j < mtimes.len()
        invariant
            j <= mtimes@.len(),
            order@.map_values(|i: usize| i as int) == age_order(mtimes@, j as int),
            forall|k: int| 0 <= k < order@.len() ==> #[trigger] order@[k] < j,
        decreases mtimes@.len() - j,
    {
        let ghost prev = order@.map_values(|i: usize| i as int);
        let mut p: usize = 0;
        while p < order.len() && mtimes[order[p]] <= mtimes[j]
            invariant
                p <= order@.len(),
                j < mtimes@.len(),
                prev == order@.map_values(|i: usize| i as int),
                forall|k: int| 0 <= k < order@.len() ==> #[trigger] order@[k] < j,
                age_pos(mtimes@, prev, j as int, p as int) == age_pos(mtimes@, prev, j as int, 0),
            decreases order@.len() - p,
        {
            p = p + 1;
        }
        order.insert(p, j);
        proof {
            assert(order@.map_values(|i: usize| i as int) =~= prev.insert(p as int, j as int));
        }
        j = j + 1;
    }
    let n = mtimes.len() - max;
    proof {
        lemma_age_order_len(mtimes@, mtimes@.len() as int);
    }
    order.truncate(n);
    let ghost ao = age_order(mtimes@, mtimes@.len() as int);
    assert(order@.map_values(|i: usize| i as int) =~= ao.take(n as int));
    proof {
        lemma_age_order(mtimes@, mtimes@.len() as int);
        assert forall|k: int| 0 <= k < order@.len() implies order@[k] as int == ao[k] by {
            assert(order@.map_values(|i: usize| i as int)[k] == order@[k] as int);
        }
        assert forall|p: int, q: int| 0 <= p < q < order@.len() implies #[trigger] order@[p] != #[trigger] order@[q] by {
            assert(order@[p] as int == ao[p] && order@[q] as int == ao[q]);
        }
        assert forall|k: int, i: int| 0 <= k < order@.len() && 0 <= i < mtimes@.len() && !order@.contains(i as usize)
            implies mtimes@[#[trigger] order@[k] as int] <= #[trigger] mtimes@[i] by {
            assert(lists_index(ao, i));
            let q = choose|q: int| 0 <= q < ao.len() && ao[q] == i;
            if q < n {
                assert(order@[q] as int == ao[q]);
                assert(order@.contains(i as usize));
            }
            assert(order@[k] as int == ao[k]);
        }
    }
    order
}

proof fn lemma_age_order_len(ts: Seq<u64>, n: int)
    requires
        0 <= n,
    ensures
        age_order(ts, n).len() == n,
    decreases n,
{
    if n > 0 {
        lemma_age_order_len(ts, n - 1);
        lemma_age_pos_bounds(ts, age_order(ts, n - 1), n - 1, 0);
    }
}

proof fn lemma_age_pos_bounds(ts: Seq<u64>, order: Seq<int>, j: int, p: int)
    requires
        0 <= p <= order.len(),
    ensures
        p <= age_pos(ts, order, j, p) <= order.len(),
    decreases order.len() - p,
{
    if p < order.len() && ts[order[p]] <= ts[j] {
        lemma_age_pos_bounds(ts, order, j, p + 1);
    }
}

/// A path in a directory tree, relative to its root, and whether it is a directory.
pub struct TreeEntry {
    pub rel: String,
    pub is_dir: bool,
}

/// One operation of mirroring a directory tree.
pub enum MirrorOp {
    /// Create this directory (and its parents).
    MakeDir(String),
    /// Copy the file.
    CopyFile { from: String, to: String },
    /// Hard-link the file, copying it where linking fails.
    LinkFile { from: String, to: String },
}

/// Whether `op` mirrors the entry `rel` from `src` to `dst`.
pub open spec fn mirrors_entry(op: MirrorOp, src: Seq<char>, dst: Seq<char>, rel: Seq<char>, is_dir: bool, link: bool) -> bool {
    if is_dir {
        op matches MirrorOp::MakeDir(d) && d@ == join_spec(dst, rel)
    } else if link {
        op matches MirrorOp::LinkFile { from, to } && from@ == join_spec(src, rel) && to@ == join_spec(dst, rel)
    } else {
        op matches MirrorOp::CopyFile { from, to } && from@ == join_spec(src, rel) && to@ == join_spec(dst, rel)
    }
}

/// The operations that mirror the tree listed by `entries` from `src` into
/// `dst`: create `dst`, then one operation per entry, in listing order;
/// files are hard-linked when `link` (a restore), else copied (a store).
pub fn mirror_plan(src: &str, dst: &str, entries: &Vec<TreeEntry>, link: bool) -> (r: Vec<MirrorOp>)
    ensures
        r@.len() == entries@.len() + 1,
        r@[0] matches MirrorOp::MakeDir(d) && d@ == dst@,
        forall|i: int| 0 <= i < entries@.len() ==> mirrors_entry(
            #[trigger] r@[i + 1],
            src@,
            dst@,
            entries@[i].rel@,
            entries@[i].is_dir,
            link,
        ),
{
    let mut r: Vec<MirrorOp> = Vec::new();
    r.push(MirrorOp::MakeDir(String::from_str(dst)));
    let mut k: usize = 0;
    while k < entries.len()
        invariant
            k <= entries@.len(),
            r@.len() == k + 1,
            r@[0] matches MirrorOp::MakeDir(d) && d@ == dst@,
            forall|i: int| 0 <= i < k ==> mirrors_entry(
                #[trigger] r@[i + 1],
                src@,
                dst@,
                entries@[i].rel@,
                entries@[i].is_dir,
                link,
            ),
        decreases entries@.len() - k,
    {
        let e = &entries[k];
        let to = join_path(dst, e.rel.as_str());
        let op = if e.is_dir {
            MirrorOp::MakeDir(to)
        } else if link {
            MirrorOp::LinkFile { from: join_path(src, e.rel.as_str()), to }
        } else {
            MirrorOp::CopyFile { from: join_path(src, e.rel.as_str()), to }
        };
        let ghost prev = r@;
        r.push(op);
        assert(forall|i: int| 0 <= i < k + 1 ==> r@[i] == prev[i]);
        k = k + 1;
    }
    r
}

/// A directory tree: each relative path maps to `None` for a directory or
/// to the bytes of a file.
pub type Tree = Map<Seq<char>, Option<Seq<u8>>>;

/// The tree that mirroring `entries` out of `src` builds in an empty directory:
/// a directory for each directory entry, the source's bytes for each file entry.
pub open spec fn mirror(src: Tree, entries: Seq<(Seq<char>, bool)>) -> Tree
    decreases entries.len(),
{
    if entries.len() == 0 {
        Map::empty()
    } else {
        let (rel, is_dir) = entries.last();
        mirror(src, entries.drop_last()).insert(rel, if is_dir { None } else { src[rel] })
    }
}

/// The paths that `entries` names.
pub open spec fn listed(entries: Seq<(Seq<char>, bool)>) -> Set<Seq<char>> {
    Set::new(|p: Seq<char>| exists|i: int| 0 <= i < entries.len() && entries[i].0 == p)
}

/// Whether `entries` lists `tree`: every path of the tree once or more,
/// nothing else, and each with its kind.
pub open spec fn lists(tree: Tree, entries: Seq<(Seq<char>, bool)>) -> bool {
    &&& forall|i: int| 0 <= i < entries.len() ==> tree.contains_key(#[trigger] entries[i].0) && (entries[i].1 <==> tree[entries[i].0] is None)
    &&& listed(entries) == tree.dom()
}

proof fn lemma_mirror_restrict(tree: Tree, entries: Seq<(Seq<char>, bool)>)
    requires
        forall|i: int| 0 <= i < entries.len() ==> tree.contains_key(#[trigger] entries[i].0) && (entries[i].1 <==> tree[entries[i].0] is None),
    ensures
        mirror(tree, entries) == tree.restrict(listed(entries)),
    decreases entries.len(),
{
    if entries.len() == 0 {
        assert(listed(entries) =~= Set::empty());
        assert(mirror(tree, entries) =~= tree.restrict(listed(entries)));
    } else {
        let init = entries.drop_last();
        assert forall|i: int| 0 <= i < init.len() implies tree.contains_key(#[trigger] init[i].0) && (init[i].1 <==> tree[init[i].0] is None) by {
            assert(init[i] == entries[i]);
        }
        lemma_mirror_restrict(tree, init);
        let (rel, is_dir) = entries.last();
        assert(entries[entries.len() - 1] == entries.last());
        assert(listed(entries) =~= listed(init).insert(rel)) by {
            assert forall|p: Seq<char>| listed(entries).contains(p) implies #[trigger] listed(init).insert(rel).contains(p) by {
                let i = choose|i: int| 0 <= i < entries.len() && entries[i].0 == p;
                if i < init.len() {
                    assert(init[i] == entries[i]);
                }
            }
            assert forall|p: Seq<char>| #[trigger] listed(init).insert(rel).contains(p) implies listed(entries).contains(p) by {
                if p != rel {
                    let i = choose|i: int| 0 <= i < init.len() && init[i].0 == p;
                    assert(entries[i] == init[i]);
                }
            }
        }
        assert(mirror(tree, entries) =~= tree.restrict(listed(entries)));
    }
}

/// Mirroring a tree by a listing of it into an empty directory reproduces it.
pub proof fn lemma_mirror_reproduces(tree: Tree, entries: Seq<(Seq<char>, bool)>)
    requires
        lists(tree, entries),
    ensures
        mirror(tree, entries) == tree,
{
    lemma_mirror_restrict(tree, entries);
    assert(tree.restrict(listed(entries)) =~= tree);
}

/// A tree stored into the cache and then restored from it, both by the same
/// listing, is the tree it was.
pub proof fn lemma_store_then_restore(tree: Tree, entries: Seq<(Seq<char>, bool)>)
    requires
        lists(tree, entries),
    ensures
        mirror(mirror(tree, entries), entries) == tree,
{
    lemma_mirror_reproduces(tree, entries);
}

} // verus!

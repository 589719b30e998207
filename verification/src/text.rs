//! Byte strings: the fixed texts of the wire format and of the stored
//! form, and comparisons on byte slices.

use vstd::prelude::*;

verus! {

/// `p` is how `s` begins.
pub open spec fn starts_with(s: Seq<u8>, p: Seq<u8>) -> bool {
    p.len() <= s.len() && s.subrange(0, p.len() as int) == p
}

/// `p` is how `s` ends.
pub open spec fn ends_with(s: Seq<u8>, p: Seq<u8>) -> bool {
    p.len() <= s.len() && s.subrange(s.len() - p.len(), s.len() as int) == p
}

/// `s` without one trailing line feed, if it has one.
pub open spec fn chomp(s: Seq<u8>) -> Seq<u8> {
    if s.len() > 0 && s[s.len() - 1] == 10u8 {
        s.subrange(0, s.len() - 1)
    } else {
        s
    }
}

/// Whether `p` stands in `s` at `at`.
pub fn matches_at(s: &[u8], at: usize, end: usize, p: &Vec<u8>) -> (r: bool)
    requires
        at <= end <= s@.len(),
    ensures
        r == (s@.subrange(at as int, end as int) == p@),
{
    if end - at != p.len() {
        assert(s@.subrange(at as int, end as int).len() != p@.len());
        return false;
    }
    let n = p.len();
    let mut k: usize = 0;
    while k < n
        invariant
            k <= n,
            n == p@.len(),
            at + n == end,
            end <= s@.len(),
            forall|m: int| 0 <= m < k ==> s@.subrange(at as int, end as int)[m] == p@[m],
        decreases n - k,
    {
        if s[at + k] != p[k] {
            assert(s@.subrange(at as int, end as int)[k as int] != p@[k as int]);
            return false;
        }
        k += 1;
    }
    assert(s@.subrange(at as int, end as int) =~= p@);
    true
}

/// Whether the first `end` bytes of `s` begin with `p`.
pub fn begins(s: &[u8], end: usize, p: &Vec<u8>) -> (r: bool)
    requires
        end <= s@.len(),
    ensures
        r == starts_with(s@.subrange(0, end as int), p@),
{
    if p.len() > end {
        return false;
    }
    let r = matches_at(s, 0, p.len(), p);
    assert(s@.subrange(0, end as int).subrange(0, p@.len() as int) =~= s@.subrange(
        0,
        p@.len() as int,
    ));
    r
}

/// Whether `s` ends with `p`.
pub fn ends(s: &[u8], p: &Vec<u8>) -> (r: bool)
    ensures
        r == ends_with(s@, p@),
{
    if p.len() > s.len() {
        return false;
    }
    matches_at(s, s.len() - p.len(), s.len(), p)
}

/// Length of `s` without one trailing line feed.
pub fn chomped_len(s: &[u8]) -> (r: usize)
    ensures
        r <= s@.len(),
        chomp(s@) == s@.subrange(0, r as int),
{
    let n = s.len();
    if n > 0 && s[n - 1] == 10u8 {
        n - 1
    } else {
        assert(s@ =~= s@.subrange(0, n as int));
        n
    }
}

/// The name by which the host announces itself. The bytes of `git-filter-client`.
pub open spec fn client_line() -> Seq<u8> {
    seq![103u8, 105u8, 116u8, 45u8, 102u8, 105u8, 108u8, 116u8, 101u8, 114u8, 45u8, 99u8, 108u8, 105u8, 101u8, 110u8, 116u8]
}

/// `client_line` as a vector.
pub fn client_line_bytes() -> (r: Vec<u8>)
    ensures
        r@ == client_line(),
{
    let r: Vec<u8> = vec![103u8, 105u8, 116u8, 45u8, 102u8, 105u8, 108u8, 116u8, 101u8, 114u8, 45u8, 99u8, 108u8, 105u8, 101u8, 110u8, 116u8];
    assert(r@ =~= client_line());
    r
}

/// The name by which the engine answers. The bytes of `git-filter-server` and a line feed.
pub open spec fn server_line() -> Seq<u8> {
    seq![103u8, 105u8, 116u8, 45u8, 102u8, 105u8, 108u8, 116u8, 101u8, 114u8, 45u8, 115u8, 101u8, 114u8, 118u8, 101u8, 114u8, 10u8]
}

/// `server_line` as a vector.
pub fn server_line_bytes() -> (r: Vec<u8>)
    ensures
        r@ == server_line(),
{
    let r: Vec<u8> = vec![103u8, 105u8, 116u8, 45u8, 102u8, 105u8, 108u8, 116u8, 101u8, 114u8, 45u8, 115u8, 101u8, 114u8, 118u8, 101u8, 114u8, 10u8];
    assert(r@ =~= server_line());
    r
}

/// The protocol version that the engine speaks. The bytes of `version=2`.
pub open spec fn version_line() -> Seq<u8> {
    seq![118u8, 101u8, 114u8, 115u8, 105u8, 111u8, 110u8, 61u8, 50u8]
}

/// `version_line` as a vector.
pub fn version_line_bytes() -> (r: Vec<u8>)
    ensures
        r@ == version_line(),
{
    let r: Vec<u8> = vec![118u8, 101u8, 114u8, 115u8, 105u8, 111u8, 110u8, 61u8, 50u8];
    assert(r@ =~= version_line());
    r
}

/// The version line as the engine sends it. The bytes of `version=2` and a line feed.
pub open spec fn version_reply() -> Seq<u8> {
    seq![118u8, 101u8, 114u8, 115u8, 105u8, 111u8, 110u8, 61u8, 50u8, 10u8]
}

/// `version_reply` as a vector.
pub fn version_reply_bytes() -> (r: Vec<u8>)
    ensures
        r@ == version_reply(),
{
    let r: Vec<u8> = vec![118u8, 101u8, 114u8, 115u8, 105u8, 111u8, 110u8, 61u8, 50u8, 10u8];
    assert(r@ =~= version_reply());
    r
}

/// The capability to clean. The bytes of `capability=clean`.
pub open spec fn cap_clean() -> Seq<u8> {
    seq![99u8, 97u8, 112u8, 97u8, 98u8, 105u8, 108u8, 105u8, 116u8, 121u8, 61u8, 99u8, 108u8, 101u8, 97u8, 110u8]
}

/// `cap_clean` as a vector.
pub fn cap_clean_bytes() -> (r: Vec<u8>)
    ensures
        r@ == cap_clean(),
{
    let r: Vec<u8> = vec![99u8, 97u8, 112u8, 97u8, 98u8, 105u8, 108u8, 105u8, 116u8, 121u8, 61u8, 99u8, 108u8, 101u8, 97u8, 110u8];
    assert(r@ =~= cap_clean());
    r
}

/// The capability to smudge. The bytes of `capability=smudge`.
pub open spec fn cap_smudge() -> Seq<u8> {
    seq![99u8, 97u8, 112u8, 97u8, 98u8, 105u8, 108u8, 105u8, 116u8, 121u8, 61u8, 115u8, 109u8, 117u8, 100u8, 103u8, 101u8]
}

/// `cap_smudge` as a vector.
pub fn cap_smudge_bytes() -> (r: Vec<u8>)
    ensures
        r@ == cap_smudge(),
{
    let r: Vec<u8> = vec![99u8, 97u8, 112u8, 97u8, 98u8, 105u8, 108u8, 105u8, 116u8, 121u8, 61u8, 115u8, 109u8, 117u8, 100u8, 103u8, 101u8];
    assert(r@ =~= cap_smudge());
    r
}

/// The clean capability as the engine sends it. The bytes of `capability=clean` and a line feed.
pub open spec fn cap_clean_reply() -> Seq<u8> {
    seq![99u8, 97u8, 112u8, 97u8, 98u8, 105u8, 108u8, 105u8, 116u8, 121u8, 61u8, 99u8, 108u8, 101u8, 97u8, 110u8, 10u8]
}

/// `cap_clean_reply` as a vector.
pub fn cap_clean_reply_bytes() -> (r: Vec<u8>)
    ensures
        r@ == cap_clean_reply(),
{
    let r: Vec<u8> = vec![99u8, 97u8, 112u8, 97u8, 98u8, 105u8, 108u8, 105u8, 116u8, 121u8, 61u8, 99u8, 108u8, 101u8, 97u8, 110u8, 10u8];
    assert(r@ =~= cap_clean_reply());
    r
}

/// The smudge capability as the engine sends it. The bytes of `capability=smudge` and a line feed.
pub open spec fn cap_smudge_reply() -> Seq<u8> {
    seq![99u8, 97u8, 112u8, 97u8, 98u8, 105u8, 108u8, 105u8, 116u8, 121u8, 61u8, 115u8, 109u8, 117u8, 100u8, 103u8, 101u8, 10u8]
}

/// `cap_smudge_reply` as a vector.
pub fn cap_smudge_reply_bytes() -> (r: Vec<u8>)
    ensures
        r@ == cap_smudge_reply(),
{
    let r: Vec<u8> = vec![99u8, 97u8, 112u8, 97u8, 98u8, 105u8, 108u8, 105u8, 116u8, 121u8, 61u8, 115u8, 109u8, 117u8, 100u8, 103u8, 101u8, 10u8];
    assert(r@ =~= cap_smudge_reply());
    r
}

/// The command to clean. The bytes of `command=clean`.
pub open spec fn cmd_clean() -> Seq<u8> {
    seq![99u8, 111u8, 109u8, 109u8, 97u8, 110u8, 100u8, 61u8, 99u8, 108u8, 101u8, 97u8, 110u8]
}

/// `cmd_clean` as a vector.
pub fn cmd_clean_bytes() -> (r: Vec<u8>)
    ensures
        r@ == cmd_clean(),
{
    let r: Vec<u8> = vec![99u8, 111u8, 109u8, 109u8, 97u8, 110u8, 100u8, 61u8, 99u8, 108u8, 101u8, 97u8, 110u8];
    assert(r@ =~= cmd_clean());
    r
}

/// The command to smudge. The bytes of `command=smudge`.
pub open spec fn cmd_smudge() -> Seq<u8> {
    seq![99u8, 111u8, 109u8, 109u8, 97u8, 110u8, 100u8, 61u8, 115u8, 109u8, 117u8, 100u8, 103u8, 101u8]
}

/// `cmd_smudge` as a vector.
pub fn cmd_smudge_bytes() -> (r: Vec<u8>)
    ensures
        r@ == cmd_smudge(),
{
    let r: Vec<u8> = vec![99u8, 111u8, 109u8, 109u8, 97u8, 110u8, 100u8, 61u8, 115u8, 109u8, 117u8, 100u8, 103u8, 101u8];
    assert(r@ =~= cmd_smudge());
    r
}

/// The key of the pathname line. The bytes of `pathname=`.
pub open spec fn pathname_key() -> Seq<u8> {
    seq![112u8, 97u8, 116u8, 104u8, 110u8, 97u8, 109u8, 101u8, 61u8]
}

/// `pathname_key` as a vector.
pub fn pathname_key_bytes() -> (r: Vec<u8>)
    ensures
        r@ == pathname_key(),
{
    let r: Vec<u8> = vec![112u8, 97u8, 116u8, 104u8, 110u8, 97u8, 109u8, 101u8, 61u8];
    assert(r@ =~= pathname_key());
    r
}

/// The status line of a file that was converted. The bytes of `status=success` and a line feed.
pub open spec fn status_success() -> Seq<u8> {
    seq![115u8, 116u8, 97u8, 116u8, 117u8, 115u8, 61u8, 115u8, 117u8, 99u8, 99u8, 101u8, 115u8, 115u8, 10u8]
}

/// `status_success` as a vector.
pub fn status_success_bytes() -> (r: Vec<u8>)
    ensures
        r@ == status_success(),
{
    let r: Vec<u8> = vec![115u8, 116u8, 97u8, 116u8, 117u8, 115u8, 61u8, 115u8, 117u8, 99u8, 99u8, 101u8, 115u8, 115u8, 10u8];
    assert(r@ =~= status_success());
    r
}

/// The status line of a file that failed. The bytes of `status=error` and a line feed.
pub open spec fn status_error() -> Seq<u8> {
    seq![115u8, 116u8, 97u8, 116u8, 117u8, 115u8, 61u8, 101u8, 114u8, 114u8, 111u8, 114u8, 10u8]
}

/// `status_error` as a vector.
pub fn status_error_bytes() -> (r: Vec<u8>)
    ensures
        r@ == status_error(),
{
    let r: Vec<u8> = vec![115u8, 116u8, 97u8, 116u8, 117u8, 115u8, 61u8, 101u8, 114u8, 114u8, 111u8, 114u8, 10u8];
    assert(r@ =~= status_error());
    r
}

/// The status line of a file that is skipped. The bytes of `status=abort` and a line feed.
pub open spec fn status_abort() -> Seq<u8> {
    seq![115u8, 116u8, 97u8, 116u8, 117u8, 115u8, 61u8, 97u8, 98u8, 111u8, 114u8, 116u8, 10u8]
}

/// `status_abort` as a vector.
pub fn status_abort_bytes() -> (r: Vec<u8>)
    ensures
        r@ == status_abort(),
{
    let r: Vec<u8> = vec![115u8, 116u8, 97u8, 116u8, 117u8, 115u8, 61u8, 97u8, 98u8, 111u8, 114u8, 116u8, 10u8];
    assert(r@ =~= status_abort());
    r
}

/// The tag that opens the stored form of a file. The bytes of `SERIALIZED:`.
pub open spec fn stored_tag() -> Seq<u8> {
    seq![83u8, 69u8, 82u8, 73u8, 65u8, 76u8, 73u8, 90u8, 69u8, 68u8, 58u8]
}

/// `stored_tag` as a vector.
pub fn stored_tag_bytes() -> (r: Vec<u8>)
    ensures
        r@ == stored_tag(),
{
    let r: Vec<u8> = vec![83u8, 69u8, 82u8, 73u8, 65u8, 76u8, 73u8, 90u8, 69u8, 68u8, 58u8];
    assert(r@ =~= stored_tag());
    r
}

/// The suffix of Rust sources. The bytes of `.rs`.
pub open spec fn suffix_rs() -> Seq<u8> {
    seq![46u8, 114u8, 115u8]
}

/// `suffix_rs` as a vector.
pub fn suffix_rs_bytes() -> (r: Vec<u8>)
    ensures
        r@ == suffix_rs(),
{
    let r: Vec<u8> = vec![46u8, 114u8, 115u8];
    assert(r@ =~= suffix_rs());
    r
}

/// The suffix of Python sources. The bytes of `.py`.
pub open spec fn suffix_py() -> Seq<u8> {
    seq![46u8, 112u8, 121u8]
}

/// `suffix_py` as a vector.
pub fn suffix_py_bytes() -> (r: Vec<u8>)
    ensures
        r@ == suffix_py(),
{
    let r: Vec<u8> = vec![46u8, 112u8, 121u8];
    assert(r@ =~= suffix_py());
    r
}

/// The suffix of JavaScript sources. The bytes of `.js`.
pub open spec fn suffix_js() -> Seq<u8> {
    seq![46u8, 106u8, 115u8]
}

/// `suffix_js` as a vector.
pub fn suffix_js_bytes() -> (r: Vec<u8>)
    ensures
        r@ == suffix_js(),
{
    let r: Vec<u8> = vec![46u8, 106u8, 115u8];
    assert(r@ =~= suffix_js());
    r
}

/// The word that opens an insert line. The bytes of `insert `.
pub open spec fn word_insert() -> Seq<u8> {
    seq![105u8, 110u8, 115u8, 101u8, 114u8, 116u8, 32u8]
}

/// `word_insert` as a vector.
pub fn word_insert_bytes() -> (r: Vec<u8>)
    ensures
        r@ == word_insert(),
{
    let r: Vec<u8> = vec![105u8, 110u8, 115u8, 101u8, 114u8, 116u8, 32u8];
    assert(r@ =~= word_insert());
    r
}

/// The word that opens a delete line. The bytes of `delete `.
pub open spec fn word_delete() -> Seq<u8> {
    seq![100u8, 101u8, 108u8, 101u8, 116u8, 101u8, 32u8]
}

/// `word_delete` as a vector.
pub fn word_delete_bytes() -> (r: Vec<u8>)
    ensures
        r@ == word_delete(),
{
    let r: Vec<u8> = vec![100u8, 101u8, 108u8, 101u8, 116u8, 101u8, 32u8];
    assert(r@ =~= word_delete());
    r
}

/// The word that opens a move line. The bytes of `move `.
pub open spec fn word_move() -> Seq<u8> {
    seq![109u8, 111u8, 118u8, 101u8, 32u8]
}

/// `word_move` as a vector.
pub fn word_move_bytes() -> (r: Vec<u8>)
    ensures
        r@ == word_move(),
{
    let r: Vec<u8> = vec![109u8, 111u8, 118u8, 101u8, 32u8];
    assert(r@ =~= word_move());
    r
}

/// The word that opens an update line. The bytes of `update `.
pub open spec fn word_update() -> Seq<u8> {
    seq![117u8, 112u8, 100u8, 97u8, 116u8, 101u8, 32u8]
}

/// `word_update` as a vector.
pub fn word_update_bytes() -> (r: Vec<u8>)
    ensures
        r@ == word_update(),
{
    let r: Vec<u8> = vec![117u8, 112u8, 100u8, 97u8, 116u8, 101u8, 32u8];
    assert(r@ =~= word_update());
    r
}

/// The word before a parent. The bytes of ` under `.
pub open spec fn word_under() -> Seq<u8> {
    seq![32u8, 117u8, 110u8, 100u8, 101u8, 114u8, 32u8]
}

/// `word_under` as a vector.
pub fn word_under_bytes() -> (r: Vec<u8>)
    ensures
        r@ == word_under(),
{
    let r: Vec<u8> = vec![32u8, 117u8, 110u8, 100u8, 101u8, 114u8, 32u8];
    assert(r@ =~= word_under());
    r
}

/// The word before a position. The bytes of ` at `.
pub open spec fn word_at() -> Seq<u8> {
    seq![32u8, 97u8, 116u8, 32u8]
}

/// `word_at` as a vector.
pub fn word_at_bytes() -> (r: Vec<u8>)
    ensures
        r@ == word_at(),
{
    let r: Vec<u8> = vec![32u8, 97u8, 116u8, 32u8];
    assert(r@ =~= word_at());
    r
}

/// The word before the source of an update. The bytes of ` from `.
pub open spec fn word_from() -> Seq<u8> {
    seq![32u8, 102u8, 114u8, 111u8, 109u8, 32u8]
}

/// `word_from` as a vector.
pub fn word_from_bytes() -> (r: Vec<u8>)
    ensures
        r@ == word_from(),
{
    let r: Vec<u8> = vec![32u8, 102u8, 114u8, 111u8, 109u8, 32u8];
    assert(r@ =~= word_from());
    r
}

} // verus!

//! Access tokens that do not expire.

use vstd::prelude::*;
use vstd::string::*;
use vstd::utf8::*;

use crate::calendar;
use crate::calendar::civil_from_days;
use crate::clock::now_unix_secs;
use crate::ids;
use crate::ids::{new_simple_uuid, new_uuid};
use crate::json;
use crate::json::lower_hex_char;
use crate::keyed;
use crate::keyed::{remove_key, Keyed};
use crate::text::{concat, push_padded, str_eq};

verus! {

/// What SHA-256 gives for some bytes.
pub uninterp spec fn sha256_of(data: Seq<u8>) -> Seq<u8>;

/// `sha2::Sha256::digest`: the 32 bytes of the digest, which depend on the data alone.
#[verifier::external_body]
pub(crate) fn sha256(data: &[u8]) -> (r: Vec<u8>)
    ensures
        r@ == sha256_of(data@),
        r@.len() == 32,
{
    <sha2::Sha256 as sha2::Digest>::digest(data).to_vec()
}

/// Bytes as lower-case hexadecimal digits, two for each.
pub open spec fn hex_of(bytes: Seq<u8>) -> Seq<char>
    decreases bytes.len(),
{
    if bytes.len() == 0 {
        Seq::empty()
    } else {
        hex_of(bytes.drop_last()).push(json::lower_hex((bytes.last() / 16) as nat)).push(
            json::lower_hex((bytes.last() % 16) as nat),
        )
    }
}

/// Bytes as lower-case hexadecimal digits.
pub fn to_hex(bytes: &Vec<u8>) -> (r: String)
    ensures
        r@ == hex_of(bytes@),
{
    let mut out: String = String::new();
    let mut i: usize = 0;
    while i < bytes.len()
        invariant
            i <= bytes.len(),
            out@ == hex_of(bytes@.take(i as int)),
        decreases bytes.len() - i,
    {
        let b: u8 = bytes[i];
        out.push(lower_hex_char((b / 16) as u32));
        out.push(lower_hex_char((b % 16) as u32));
        i += 1;
        assert(bytes@.take(i as int).drop_last() =~= bytes@.take(i - 1));
        assert(bytes@.take(i as int).last() == b);
    }
    assert(bytes@.take(i as int) =~= bytes@);
    out
}

/// Different bytes have different hexadecimal digits.
pub proof fn law_hex_injective(a: Seq<u8>, b: Seq<u8>)
    ensures
        hex_of(a) == hex_of(b) <==> a == b,
        hex_of(a).len() == 2 * a.len(),
    decreases a.len(),
{
    if a.len() > 0 {
        law_hex_injective(a.drop_last(), if b.len() > 0 {
            b.drop_last()
        } else {
            b
        });
        let x = hex_of(a);
        if b.len() > 0 && x == hex_of(b) {
            lemma_hex_len(b);
            let y = hex_of(b);
            let n = x.len() as int;
            assert(x.take(n - 2) =~= hex_of(a.drop_last()));
            assert(y.take(n - 2) =~= hex_of(b.drop_last()));
            assert(x[n - 1] == y[n - 1] && x[n - 2] == y[n - 2]);
            lemma_lower_hex((a.last() / 16) as nat, (b.last() / 16) as nat);
            lemma_lower_hex((a.last() % 16) as nat, (b.last() % 16) as nat);
            assert(a.last() == b.last());
            assert(a =~= a.drop_last().push(a.last()));
            assert(b =~= b.drop_last().push(b.last()));
        }
    } else {
        lemma_hex_len(b);
        assert(b.len() == 0 ==> b =~= a);
    }
}

proof fn lemma_hex_len(a: Seq<u8>)
    ensures
        hex_of(a).len() == 2 * a.len(),
    decreases a.len(),
{
    if a.len() > 0 {
        lemma_hex_len(a.drop_last());
    }
}

proof fn lemma_lower_hex(m: nat, n: nat)
    requires
        m < 16,
        n < 16,
        json::lower_hex(m) == json::lower_hex(n),
    ensures
        m == n,
{
}

/// What is stored of a token: the SHA-256 digest of its bytes, in hexadecimal digits.
pub open spec fn token_digest(token: Seq<char>) -> Seq<char> {
    hex_of(sha256_of(encode_utf8(token)))
}

/// The SHA-256 digest of bytes, in hexadecimal digits.
pub fn sha256_hex(input: &[u8]) -> (r: String)
    ensures
        r@ == hex_of(sha256_of(input@)),
        r@.len() == 64,
{
    let digest: Vec<u8> = sha256(input);
    proof {
        lemma_hex_len(digest@);
    }
    to_hex(&digest)
}

/// A stored token. The token itself is not stored.
pub struct TokenRecord {
    pub id: String,
    pub name: String,
    pub token_hash: String,
    pub created_at: String,
}

impl Keyed for TokenRecord {
    open spec fn key(&self) -> Seq<char> {
        self.id@
    }

    fn key_str(&self) -> (r: &str) {
        self.id.as_str()
    }
}

/// What may be shown of a token.
pub struct TokenSummary {
    pub id: String,
    pub name: String,
    pub created_at: String,
}

/// What may be shown of tokens.
pub open spec fn summaries(s: Seq<TokenRecord>) -> Seq<TokenSummary> {
    Seq::new(
        s.len(),
        |i: int| TokenSummary { id: s[i].id, name: s[i].name, created_at: s[i].created_at },
    )
}

/// Whether a token is one of those stored.
pub open spec fn accepted(s: Seq<TokenRecord>, token: Seq<char>) -> bool {
    exists|i: int| 0 <= i < s.len() && (#[trigger] s[i]).token_hash@ == token_digest(token)
}

/// The tokens that are stored.
pub struct LongLivedTokenStore {
    pub tokens: Vec<TokenRecord>,
}

impl LongLivedTokenStore {
    /// A store without tokens.
    pub fn new() -> (r: Self)
        ensures
            r.tokens@ == Seq::<TokenRecord>::empty(),
    {
        LongLivedTokenStore { tokens: Vec::new() }
    }

    /// What may be shown of all tokens.
    pub fn list(&self) -> (r: Vec<TokenSummary>)
        ensures
            r@ == summaries(self.tokens@),
    {
        let mut out: Vec<TokenSummary> = Vec::new();
        let mut i: usize = 0;
        while i < self.tokens.len()
            invariant
                i <= self.tokens.len(),
                out@ == summaries(self.tokens@).take(i as int),
            decreases self.tokens.len() - i,
        {
            let t: &TokenRecord = &self.tokens[i];
            out.push(
                TokenSummary {
                    id: t.id.clone(),
                    name: t.name.clone(),
                    created_at: t.created_at.clone(),
                },
            );
            i += 1;
            assert(out@ =~= summaries(self.tokens@).take(i as int));
        }
        assert(summaries(self.tokens@).take(i as int) =~= summaries(self.tokens@));
        out
    }

    /// Stores a token under an id, with the date of its making.
    pub fn create_with(&mut self, name: String, token: &str, id: String, created_at: String)
        ensures
            exists|hash: String| hash@ == token_digest(token@) && final(self).tokens@
                == old(self).tokens@.push(#[trigger] stored_token(id, name, hash, created_at)),
    {
        let token_hash: String = sha256_hex(token.as_bytes());
        assert(stored_token(id, name, token_hash, created_at) == TokenRecord {
            id,
            name,
            token_hash,
            created_at,
        });
        self.tokens.push(TokenRecord { id, name, token_hash, created_at });
    }

    /// Makes a random token of 64 hexadecimal digits, stores it, and returns it; it cannot be
    /// had again.
    pub fn create(&mut self, name: String) -> (r: String)
        ensures
            ids::is_hex_text(r@, 64),
            final(self).tokens@.len() == old(self).tokens@.len() + 1,
            final(self).tokens@.drop_last() == old(self).tokens@,
            ({
                let t = final(self).tokens@.last();
                &&& t.name == name
                &&& t.token_hash@ == token_digest(r@)
                &&& ids::is_hyphenated(t.id@)
                &&& exists|days: u64| t.created_at@ == #[trigger] day_text(days)
            }),
    {
        let head: String = new_simple_uuid();
        let tail: String = new_simple_uuid();
        let token: String = concat(head.as_str(), tail.as_str());
        assert forall|i: int| 0 <= i < 64 implies ids::is_lower_hex(#[trigger] token@[i]) by {
            if i < 32 {
                assert(token@[i] == head@[i]);
            } else {
                assert(token@[i] == tail@[i - 32]);
            }
        }
        let id: String = new_uuid();
        let created_at: String = format_today();
        self.create_with(name, token.as_str(), id, created_at);
        assert(self.tokens@.drop_last() =~= old(self).tokens@);
        token
    }

    /// Removes the token with an id. Says whether there was one.
    pub fn revoke(&mut self, id: &str) -> (r: bool)
        ensures
            final(self).tokens@ == keyed::without_key(old(self).tokens@, id@),
            r == (keyed::key_pos(old(self).tokens@, id@) is Some),
    {
        remove_key(&mut self.tokens, id)
    }

    /// Whether a token is one of those stored.
    pub fn verify_bearer(&self, token: &str) -> (r: bool)
        ensures
            r == accepted(self.tokens@, token@),
    {
        let hash: String = sha256_hex(token.as_bytes());
        let mut i: usize = 0;
        while i < self.tokens.len()
            invariant
                i <= self.tokens.len(),
                hash@ == token_digest(token@),
                forall|j: int| 0 <= j < i ==> (#[trigger] self.tokens@[j]).token_hash@ != hash@,
            decreases self.tokens.len() - i,
        {
            if str_eq(self.tokens[i].token_hash.as_str(), hash.as_str()) {
                return true;
            }
            i += 1;
        }
        false
    }
}

/// A stored token.
pub open spec fn stored_token(id: String, name: String, hash: String, created_at: String) -> TokenRecord {
    TokenRecord { id, name, token_hash: hash, created_at }
}

/// A token is accepted once it is stored, and the tokens that were accepted before still are.
pub proof fn law_token_accepted(s: Seq<TokenRecord>, t: TokenRecord, token: Seq<char>, other: Seq<char>)
    requires
        t.token_hash@ == token_digest(token),
    ensures
        accepted(s.push(t), token),
        accepted(s, other) ==> accepted(s.push(t), other),
{
    assert(s.push(t)[s.len() as int] == t);
    if accepted(s, other) {
        let i = choose|i: int|
            0 <= i < s.len() && (#[trigger] s[i]).token_hash@ == token_digest(other);
        assert(s.push(t)[i] == s[i]);
    }
}

/// Once a token is revoked it is not accepted, unless another stored one has its digest; the
/// tokens under other ids still are.
pub proof fn law_token_revoked(s: Seq<TokenRecord>, id: Seq<char>, token: Seq<char>)
    ensures
        accepted(keyed::without_key(s, id), token) <==> exists|i: int|
            0 <= i < s.len() && (#[trigger] s[i]).token_hash@ == token_digest(token) && s[i].id@
                != id,
    decreases s.len(),
{
    let w = keyed::without_key(s, id);
    if s.len() > 0 {
        let front = s.drop_last();
        let wf = keyed::without_key(front, id);
        law_token_revoked(front, id, token);
        if accepted(w, token) {
            let i = choose|i: int|
                0 <= i < w.len() && (#[trigger] w[i]).token_hash@ == token_digest(token);
            if i < wf.len() {
                assert(wf[i].token_hash@ == token_digest(token));
                assert(accepted(wf, token));
                let j = choose|j: int|
                    0 <= j < front.len() && (#[trigger] front[j]).token_hash@ == token_digest(token)
                        && front[j].id@ != id;
                assert(s[j].token_hash@ == token_digest(token));
            } else {
                assert(s[s.len() - 1].token_hash@ == token_digest(token));
            }
        }
        if exists|i: int|
            0 <= i < s.len() && (#[trigger] s[i]).token_hash@ == token_digest(token) && s[i].id@
                != id {
            let i = choose|i: int|
                0 <= i < s.len() && (#[trigger] s[i]).token_hash@ == token_digest(token) && s[i].id@
                    != id;
            if i < front.len() {
                assert(front[i].token_hash@ == token_digest(token));
                assert(accepted(wf, token));
                let j = choose|j: int|
                    0 <= j < wf.len() && (#[trigger] wf[j]).token_hash@ == token_digest(token);
                assert(w[j] == wf[j]);
            } else {
                assert(w[w.len() - 1] == s.last());
            }
        }
    }
}

/// A day since 1970-01-01 as `YYYY-MM-DD`.
pub open spec fn day_text(days: u64) -> Seq<char> {
    let t = calendar::date_of(days as int);
    calendar::date_text(t.0 as nat, t.1 as nat, t.2 as nat)
}

/// A day since 1970-01-01 as `YYYY-MM-DD`.
pub fn days_to_ymd(days: u64) -> (r: String)
    requires
        days <= i64::MAX - 719_468,
    ensures
        r@ == day_text(days),
{
    let (y, m, d): (u64, u64, u64) = civil_from_days(days);
    proof {
        calendar::lemma_date_of(days as int, y as int, m as int, d as int);
    }
    let mut out: String = String::new();
    push_padded(&mut out, y, 4);
    out.push('-');
    push_padded(&mut out, m, 2);
    out.push('-');
    push_padded(&mut out, d, 2);
    assert(out@ =~= calendar::date_text(y as nat, m as nat, d as nat));
    out
}

/// Today as `YYYY-MM-DD`.
pub fn format_today() -> (r: String)
    ensures
        exists|days: u64| r@ == #[trigger] day_text(days),
{
    let secs: u64 = now_unix_secs();
    days_to_ymd(secs / 86400)
}

} // verus!

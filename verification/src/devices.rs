//! Pairing of devices.
//!
//! A device without a keyboard shows a short code and asks, over and over,
//! whether it was linked. Its owner enters the code on a signed-in browser,
//! and the device gets a session.

use vstd::prelude::*;
use vstd::string::StringExecFns;

use crate::api_error;
use crate::api_error::{ApiError, Failure};
use crate::text;
use crate::user::User;

verus! {

/// Seconds for which a code can be entered.
pub const DEVICE_CODE_TTL_SECS: i64 = 600;

#[derive(Debug, Clone)]
pub struct CreateCodeRequest {
    pub kind: String,
}

/// The kind of a device that names none.
pub fn default_kind() -> (r: String)
    ensures
        r@ == "unknown"@,
{
    "unknown".to_string()
}

#[derive(Debug)]
pub struct CreateCodeResponse {
    pub code: String,
    pub device_id: u128,
    pub verification_url: String,
    pub expires_in: i64,
}

#[derive(Debug)]
pub enum PollResponse {
    Pending,
    Expired,
    Linked { user: PolledUser },
}

#[derive(Debug)]
pub struct PolledUser {
    pub id: u128,
    pub email: String,
    pub is_admin: bool,
}

#[derive(Debug, Clone)]
pub struct LinkRequest {
    pub code: String,
    pub label: Option<String>,
}

#[derive(Debug)]
pub struct DeviceView {
    pub jti: u128,
    pub label: Option<String>,
    pub kind: Option<String>,
    /// Milliseconds since the Unix epoch.
    pub issued_at: i64,
    pub expires_at: i64,
}

// ---------------------------------------------------------------------------
// Codes
// ---------------------------------------------------------------------------

/// The characters of codes: none of them is easily taken for another.
pub open spec fn alphabet() -> Seq<char> {
    "ABCDEFGHJKMNPQRSTUVWXYZ23456789"@
}

/// Number of characters of the alphabet.
pub const ALPHABET_LEN: usize = 31;

/// Characters of a code, in two halves.
pub const CODE_CHARS: usize = 8;

/// `rand::seq::IteratorRandom::choose` on the numbers below `n`, with the
/// generator of `rand::rng`: one of them, drawn at random.
#[verifier::external_body]
fn random_below(n: usize) -> (r: usize)
    requires
        0 < n,
    ensures
        r < n,
{
    rand::seq::IteratorRandom::choose(0..n, &mut rand::rng()).unwrap_or(0)
}

/// The code that eight places in the alphabet make: two halves with a dash
/// between them.
pub open spec fn code_text(picks: Seq<usize>) -> Seq<char> {
    let c = Seq::new(picks.len(), |i: int| alphabet()[picks[i] as int]);
    c.take(4) + seq!['-'] + c.skip(4)
}

/// The code that eight places in the alphabet make.
pub fn code_from(picks: &Vec<usize>) -> (r: String)
    requires
        picks@.len() == CODE_CHARS,
        forall|i: int| 0 <= i < picks@.len() ==> (#[trigger] picks@[i]) < ALPHABET_LEN,
    ensures
        r@ == code_text(picks@),
{
    let letters = text::chars_of("ABCDEFGHJKMNPQRSTUVWXYZ23456789");
    proof {
        reveal_strlit("ABCDEFGHJKMNPQRSTUVWXYZ23456789");
    }
    assert(letters@.len() == ALPHABET_LEN);
    let ghost c = Seq::new(picks@.len(), |i: int| alphabet()[picks@[i] as int]);
    let mut out = String::new();
    for i in 0..CODE_CHARS
        invariant
            picks@.len() == CODE_CHARS,
            forall|i: int| 0 <= i < picks@.len() ==> (#[trigger] picks@[i]) < ALPHABET_LEN,
            letters@ == alphabet(),
            letters@.len() == ALPHABET_LEN,
            c == Seq::new(picks@.len(), |i: int| alphabet()[picks@[i] as int]),
            out@ == if i <= 4 {
                c.take(i as int)
            } else {
                c.take(4) + seq!['-'] + c.subrange(4, i as int)
            },
    {
        if i == 4 {
            out.push('-');
            assert(out@ =~= c.take(4) + seq!['-'] + c.subrange(4, 4));
        }
        out.push(letters[picks[i]]);
        assert(if i < 4 {
            out@ =~= c.take(i + 1)
        } else {
            out@ =~= c.take(4) + seq!['-'] + c.subrange(4, i + 1)
        });
    }
    assert(c.subrange(4, 8) =~= c.skip(4));
    out
}

/// Two codes are the same only where the same places were drawn: no draw is
/// lost.
pub proof fn codes_keep_draws_apart(a: Seq<usize>, b: Seq<usize>, i: int)
    requires
        a.len() == CODE_CHARS,
        b.len() == CODE_CHARS,
        forall|k: int| 0 <= k < a.len() ==> (#[trigger] a[k]) < ALPHABET_LEN,
        forall|k: int| 0 <= k < b.len() ==> (#[trigger] b[k]) < ALPHABET_LEN,
        code_text(a) == code_text(b),
        0 <= i < CODE_CHARS,
    ensures
        a[i] == b[i],
{
    let j = if i < 4 {
        i
    } else {
        i + 1
    };
    assert(code_text(a)[j] == alphabet()[a[i] as int]);
    assert(code_text(b)[j] == alphabet()[b[i] as int]);
    lemma_distinct_letters(a[i] as int, b[i] as int);
}

proof fn lemma_distinct_letters(i: int, j: int)
    requires
        0 <= i < ALPHABET_LEN,
        0 <= j < ALPHABET_LEN,
        alphabet()[i] == alphabet()[j],
    ensures
        i == j,
{
    reveal_strlit("ABCDEFGHJKMNPQRSTUVWXYZ23456789");
    assert forall|k: int| 0 <= k < 31 implies place_of(#[trigger] alphabet()[k]) == k by {}
    assert(place_of(alphabet()[i]) == i);
    assert(place_of(alphabet()[j]) == j);
}

/// The place of a character in the alphabet.
spec fn place_of(c: char) -> int {
    let n = c as int;
    if n <= '9' as int {
        n - '2' as int + 23
    } else if n <= 'H' as int {
        n - 'A' as int
    } else if n <= 'K' as int {
        n - 'A' as int - 1
    } else if n <= 'N' as int {
        n - 'A' as int - 2
    } else {
        n - 'A' as int - 3
    }
}

/// A new code.
pub fn generate_code() -> (r: String)
    ensures
        exists|picks: Seq<usize>|
            picks.len() == CODE_CHARS && (forall|i: int|
                0 <= i < picks.len() ==> (#[trigger] picks[i]) < ALPHABET_LEN) && r@
                == #[trigger] code_text(picks),
{
    let mut picks: Vec<usize> = Vec::new();
    for i in 0..CODE_CHARS
        invariant
            picks@.len() == i,
            forall|j: int| 0 <= j < picks@.len() ==> (#[trigger] picks@[j]) < ALPHABET_LEN,
    {
        picks.push(random_below(ALPHABET_LEN));
    }
    code_from(&picks)
}

/// The form in which a code is looked up: without white space around it, and
/// in upper case.
pub open spec fn normal_code(typed: Seq<char>) -> Seq<char> {
    text::uppered(text::trimmed(typed))
}

/// The form in which a code is looked up.
pub fn normalize_code(typed: &str) -> (r: String)
    ensures
        r@ == normal_code(typed@),
{
    let t = text::trim(typed);
    text::to_ascii_uppercase(t.as_str())
}

/// A code is found however its letters are typed.
pub proof fn code_is_found_in_any_case(picks: Seq<usize>, typed: Seq<char>)
    requires
        picks.len() == CODE_CHARS,
        forall|i: int| 0 <= i < picks.len() ==> (#[trigger] picks[i]) < ALPHABET_LEN,
        text::uppered(typed) == code_text(picks),
    ensures
        normal_code(typed) == code_text(picks),
{
    let code = code_text(picks);
    reveal_strlit("ABCDEFGHJKMNPQRSTUVWXYZ23456789");
    assert(typed.len() == text::uppered(typed).len());
    assert(code.len() == 9);
    assert(code[0] == alphabet()[picks[0] as int]);
    assert(code[8] == alphabet()[picks[7] as int]);
    assert(text::uppered(typed)[0] == text::upper_char(typed[0]));
    assert(text::uppered(typed)[8] == text::upper_char(typed[8]));
    lemma_letter(picks[0] as int);
    lemma_letter(picks[7] as int);
    assert(!text::is_white_space(typed[0]));
    assert(!text::is_white_space(typed.last()));
    assert(text::trimmed_start(typed) == typed);
    assert(text::trimmed_end(typed) == typed);
    assert(text::trimmed(typed) == typed);
}

proof fn lemma_letter(i: int)
    requires
        0 <= i < ALPHABET_LEN,
    ensures
        '2' as int <= alphabet()[i] as int <= '9' as int || 'A' as int <= alphabet()[i] as int
            <= 'Z' as int,
{
    reveal_strlit("ABCDEFGHJKMNPQRSTUVWXYZ23456789");
}

/// What a device shows: the code, and the address at which to enter it.
pub fn create_code(code: String, device_id: u128, public_url: &str) -> (r: CreateCodeResponse)
    ensures
        r.code == code,
        r.device_id == device_id,
        r.verification_url@ == text::without_trailing(public_url@, '/') + "/account?pair="@ + code@,
        r.expires_in == DEVICE_CODE_TTL_SECS,
{
    let mut url = text::trim_end_matches(public_url, '/');
    url.append("/account?pair=");
    url.append(code.as_str());
    CreateCodeResponse {
        code,
        device_id,
        verification_url: url,
        expires_in: DEVICE_CODE_TTL_SECS,
    }
}

// ---------------------------------------------------------------------------
// Polling and linking
// ---------------------------------------------------------------------------

/// A stored code.
#[derive(Debug)]
pub struct DeviceCodeRow {
    /// Milliseconds since the Unix epoch.
    pub expires_at: i64,
    pub claimed_by: Option<u128>,
    pub label: Option<String>,
    pub kind: String,
}

/// What there is to do for a device that asks.
pub enum PollStep {
    Answer(PollResponse),
    /// Load this user, and start a session for them.
    LoadUser(u128),
}

/// What there is to do for a device that asks. A code that has expired starts
/// no session, even where it was linked.
pub fn poll(row: Option<&DeviceCodeRow>, now: i64) -> (r: Result<PollStep, ApiError>)
    ensures
        match row {
            None => r matches Err(e) && e@ == Failure::NotFound,
            Some(c) => r is Ok && r->Ok_0 == if c.expires_at < now {
                PollStep::Answer(PollResponse::Expired)
            } else {
                match c.claimed_by {
                    None => PollStep::Answer(PollResponse::Pending),
                    Some(u) => PollStep::LoadUser(u),
                }
            },
        },
{
    match row {
        None => Err(ApiError::NotFound),
        Some(c) => {
            if c.expires_at < now {
                return Ok(PollStep::Answer(PollResponse::Expired));
            }
            match c.claimed_by {
                None => Ok(PollStep::Answer(PollResponse::Pending)),
                Some(u) => Ok(PollStep::LoadUser(u)),
            }
        },
    }
}

/// The answer for a device that was linked.
pub fn linked(user: Option<&User>) -> (r: Result<PollResponse, ApiError>)
    ensures
        match user {
            None => r matches Err(e) && e@ == Failure::NotFound,
            Some(u) => r == Ok::<PollResponse, ApiError>(
                (PollResponse::Linked {
                    user: (PolledUser { id: u.id.0, email: u.email, is_admin: u.is_admin }),
                }),
            ),
        },
{
    match user {
        None => Err(ApiError::NotFound),
        Some(u) => Ok(
            PollResponse::Linked {
                user: PolledUser { id: u.id.0, email: u.email.clone(), is_admin: u.is_admin },
            },
        ),
    }
}

/// The code to look up and the label to store for a device that is linked. A
/// blank label is none.
pub fn link(req: &LinkRequest) -> (r: (String, Option<String>))
    ensures
        r.0@ == normal_code(req.code@),
        text::opt_view(r.1) == match req.label {
            Some(l) => if text::trimmed(l@).len() > 0 {
                Some(text::trimmed(l@))
            } else {
                None
            },
            None => None,
        },
{
    let code = normalize_code(req.code.as_str());
    let label = match &req.label {
        Some(l) => {
            let t = text::trim(l.as_str());
            if text::is_blank(t.as_str()) {
                None
            } else {
                Some(t)
            }
        },
        None => None,
    };
    (code, label)
}

/// A code that is entered has to be active.
pub fn active_code(active: bool) -> (r: Result<(), ApiError>)
    ensures
        if active {
            r is Ok
        } else {
            r matches Err(e) && e@ == Failure::BadRequest("invalid or expired code"@)
        },
{
    if active {
        Ok(())
    } else {
        Err(api_error::bad_request("invalid or expired code"))
    }
}

/// A code is claimed once.
pub fn claimed_code(claimed: bool) -> (r: Result<(), ApiError>)
    ensures
        if claimed {
            r is Ok
        } else {
            r matches Err(e) && e@ == Failure::Conflict("code already claimed or expired"@)
        },
{
    if claimed {
        Ok(())
    } else {
        Err(api_error::conflict("code already claimed or expired"))
    }
}

/// Whether something that was to be revoked was there.
pub fn revoked(ok: bool) -> (r: Result<(), ApiError>)
    ensures
        if ok {
            r is Ok
        } else {
            r matches Err(e) && e@ == Failure::NotFound
        },
{
    if ok {
        Ok(())
    } else {
        Err(ApiError::NotFound)
    }
}

// ---------------------------------------------------------------------------
// Laws
// ---------------------------------------------------------------------------

/// A code has two halves of four characters with a dash between them, and
/// no character that is easily taken for another.
pub proof fn code_is_easily_read(r: String)
    requires
        call_ensures(generate_code, (), r),
    ensures
        r@.len() == 9,
        r@[4] == '-',
        forall|i: int|
            0 <= i < 9 && i != 4 ==> 'A' <= #[trigger] r@[i] <= 'Z' || '2' <= r@[i] <= '9',
        forall|i: int|
            0 <= i < 9 ==> #[trigger] r@[i] != 'I' && r@[i] != 'L' && r@[i] != 'O' && r@[i] != '0'
                && r@[i] != '1',
{
    reveal_strlit("ABCDEFGHJKMNPQRSTUVWXYZ23456789");
    let picks = choose|picks: Seq<usize>|
        picks.len() == CODE_CHARS && (forall|i: int|
            0 <= i < picks.len() ==> (#[trigger] picks[i]) < ALPHABET_LEN) && r@
            == #[trigger] code_text(picks);
    let c = Seq::new(picks.len(), |i: int| alphabet()[picks[i] as int]);
    assert(r@ =~= c.take(4) + seq!['-'] + c.skip(4));
    assert forall|k: int| 0 <= k < 31 implies ('A' <= #[trigger] alphabet()[k] <= 'Z' || '2'
        <= alphabet()[k] <= '9') && alphabet()[k] != 'I' && alphabet()[k] != 'L' && alphabet()[k]
        != 'O' && alphabet()[k] != '0' && alphabet()[k] != '1' by {}
    assert forall|i: int| 0 <= i < 9 && i != 4 implies ('A' <= #[trigger] r@[i] <= 'Z' || '2'
        <= r@[i] <= '9') && r@[i] != 'I' && r@[i] != 'L' && r@[i] != 'O' && r@[i] != '0' && r@[i]
        != '1' by {
        let k: int = if i < 4 {
            i
        } else {
            i - 1
        };
        assert(picks[k] < ALPHABET_LEN);
        assert(r@[i] == c[k]);
        assert(c[k] == alphabet()[picks[k] as int]);
    }
}

/// A code that was made is found as it is shown, with white space around it,
/// and a code typed twice is one code.
pub proof fn shown_code_is_found(code: String, typed: &str, bare: String, b: &str, r: String, again: String)
    requires
        call_ensures(generate_code, (), code),
        call_ensures(normalize_code, (typed,), r),
        call_ensures(text::trim, (typed,), bare),
        b@ == bare@,
        call_ensures(normalize_code, (b,), again),
    ensures
        typed@ == code@ ==> r@ == code@,
        bare@ == code@ ==> r@ == code@,
        again@ == r@,
        r@.len() == bare@.len(),
{
    let picks = choose|picks: Seq<usize>|
        picks.len() == CODE_CHARS && (forall|i: int|
            0 <= i < picks.len() ==> (#[trigger] picks[i]) < ALPHABET_LEN) && code@
            == #[trigger] code_text(picks);
    code_is_easily_read(code);
    assert(text::uppered(code@) =~= code@);
    code_is_found_in_any_case(picks, code@);
    text::lemma_trimmed(typed@);
}

/// A device shows its code, and the address holds it; the code can be entered
/// for ten minutes. Slashes at the end of the server's address make no
/// difference.
pub proof fn device_shows_where_to_enter(
    code: String,
    device_id: u128,
    public_url: &str,
    bare: &str,
    r: CreateCodeResponse,
    s: CreateCodeResponse,
)
    requires
        call_ensures(create_code, (code, device_id, public_url), r),
        call_ensures(create_code, (code, device_id, bare), s),
    ensures
        r.code == code && r.device_id == device_id,
        r.expires_in == 10 * 60,
        public_url@ == bare@.push('/') ==> r.verification_url@ == s.verification_url@,
        public_url@.len() > 0 && public_url@.last() != '/' ==> r.verification_url@ == public_url@
            + "/account?pair="@ + code@,
{
    if public_url@ == bare@.push('/') {
        assert(public_url@.drop_last() =~= bare@);
    }
}

/// A device is linked only by a code that is there, that has not expired and
/// that someone claimed: it is their account that is loaded.
pub proof fn device_is_linked_by_a_claim(
    row: Option<&DeviceCodeRow>,
    now: i64,
    r: Result<PollStep, ApiError>,
)
    requires
        call_ensures(poll, (row, now), r),
    ensures
        r is Ok <==> row is Some,
        r is Err ==> r->Err_0@ is NotFound,
        r is Ok && r->Ok_0 is LoadUser <==> row is Some && row->0.claimed_by is Some && now
            <= row->0.expires_at,
        r is Ok && r->Ok_0 is LoadUser ==> r->Ok_0->LoadUser_0 == row->0.claimed_by->0,
        r is Ok && r->Ok_0 is Answer ==> (r->Ok_0->Answer_0 is Expired <==> row->0.expires_at < now),
        r is Ok && r->Ok_0 is Answer ==> (r->Ok_0->Answer_0 is Pending <==> row->0.expires_at >= now),
{
}

/// A code that has expired stays expired.
pub proof fn expired_code_stays_expired(
    row: &DeviceCodeRow,
    now: i64,
    later: i64,
    a: Result<PollStep, ApiError>,
    b: Result<PollStep, ApiError>,
)
    requires
        now <= later,
        call_ensures(poll, (Some(row), now), a),
        call_ensures(poll, (Some(row), later), b),
        a->Ok_0 == PollStep::Answer(PollResponse::Expired),
    ensures
        b is Ok && b->Ok_0 == PollStep::Answer(PollResponse::Expired),
{
}

/// A linked device is told whose it is.
pub proof fn linked_device_is_told_whose_it_is(user: Option<&User>, r: Result<PollResponse, ApiError>)
    requires
        call_ensures(linked, (user,), r),
    ensures
        r is Ok <==> user is Some,
        r is Err ==> r->Err_0@ is NotFound,
        r is Ok ==> r->Ok_0 is Linked && r->Ok_0->user.id == user->0.id.0 && r->Ok_0->user.email
            == user->0.email && r->Ok_0->user.is_admin == user->0.is_admin,
{
}

/// A device is linked by the code that was typed, under the label that was
/// typed; a blank label is none.
pub proof fn device_is_linked_as_typed(
    req: &LinkRequest,
    code: &str,
    label: &str,
    c: String,
    l: String,
    r: (String, Option<String>),
)
    requires
        code@ == req.code@,
        req.label is Some ==> label@ == req.label->0@,
        call_ensures(normalize_code, (code,), c),
        call_ensures(text::trim, (label,), l),
        call_ensures(link, (req,), r),
    ensures
        r.0@ == c@,
        r.1 is Some <==> req.label is Some && l@.len() > 0,
        r.1 is Some ==> r.1->0@ == l@,
{
}

/// What is not active, not claimed or not there is refused, each in its way.
pub proof fn codes_are_claimed_once(
    ok: bool,
    active: Result<(), ApiError>,
    claimed: Result<(), ApiError>,
    gone: Result<(), ApiError>,
)
    requires
        call_ensures(active_code, (ok,), active),
        call_ensures(claimed_code, (ok,), claimed),
        call_ensures(revoked, (ok,), gone),
    ensures
        active is Ok == ok && claimed is Ok == ok && gone is Ok == ok,
        !ok ==> active->Err_0@ is BadRequest && claimed->Err_0@ is Conflict && gone->Err_0@ is NotFound,
{
}

/// A code is made of its places in turn: eight that differ in one place make
/// codes that differ there.
pub proof fn code_is_made_of_its_places(
    a: &Vec<usize>,
    b: &Vec<usize>,
    i: int,
    ra: String,
    rb: String,
    kind: String,
)
    requires
        a@.len() == 8,
        b@.len() == 8,
        forall|k: int| 0 <= k < 8 ==> (#[trigger] a@[k]) < 31,
        forall|k: int| 0 <= k < 8 ==> (#[trigger] b@[k]) < 31,
        0 <= i < 8,
        call_ensures(code_from, (a,), ra),
        call_ensures(code_from, (b,), rb),
        call_ensures(default_kind, (), kind),
    ensures
        ra@.len() == 9 && ra@[4] == '-',
        ra@ == rb@ ==> a@[i] == b@[i],
        a@[i] == b@[i] && i < 4 ==> ra@[i] == rb@[i],
        a@[i] == b@[i] && i >= 4 ==> ra@[i + 1] == rb@[i + 1],
        kind@ == seq!['u', 'n', 'k', 'n', 'o', 'w', 'n'],
{
    reveal_strlit("unknown");
    assert("unknown"@ =~= seq!['u', 'n', 'k', 'n', 'o', 'w', 'n']);
    if ra@ == rb@ {
        codes_keep_draws_apart(a@, b@, i);
    }
}

} // verus!

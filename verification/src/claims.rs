use vstd::prelude::*;

use crate::text::{
    append_dec_fixed, dec_fixed, dec_val, digit_val, is_digit, is_plain_field, lemma_dec_fixed_len,
    parse_digits, plain_field,
};

verus! {

/// Upper bound on every whole-second UNIX instant the library embeds in a
/// token; it keeps expiry arithmetic inside `i64` and instants inside twelve
/// decimal digits.
pub const MAX_INSTANT: i64 = 99_999_999_999;

/// Access tokens live fifteen minutes.
pub const ACCESS_TTL_SECS: i64 = 900;

/// Refresh tokens live seven days.
pub const REFRESH_TTL_SECS: i64 = 604_800;

/// Claims of a short-lived access token: who the bearer is, their role, and
/// when the token lapses (whole-second UNIX epoch).
pub struct AccessClaims {
    pub access_uuid: String,
    pub username: String,
    pub role: String,
    pub exp: i64,
}

pub struct AccessClaimsView {
    pub access_uuid: Seq<char>,
    pub username: Seq<char>,
    pub role: Seq<char>,
    pub exp: int,
}

impl View for AccessClaims {
    type V = AccessClaimsView;

    open spec fn view(&self) -> AccessClaimsView {
        AccessClaimsView {
            access_uuid: self.access_uuid@,
            username: self.username@,
            role: self.role@,
            exp: self.exp as int,
        }
    }
}

/// Claims of a long-lived refresh token. It names the access token minted
/// with it and the user it belongs to, and carries both expiries.
pub struct RefreshClaims {
    pub refresh_uuid: String,
    pub access_uuid: String,
    pub username: String,
    pub refresh_exp: i64,
    pub access_exp: i64,
}

pub struct RefreshClaimsView {
    pub refresh_uuid: Seq<char>,
    pub access_uuid: Seq<char>,
    pub username: Seq<char>,
    pub refresh_exp: int,
    pub access_exp: int,
}

impl View for RefreshClaims {
    type V = RefreshClaimsView;

    open spec fn view(&self) -> RefreshClaimsView {
        RefreshClaimsView {
            refresh_uuid: self.refresh_uuid@,
            access_uuid: self.access_uuid@,
            username: self.username@,
            refresh_exp: self.refresh_exp as int,
            access_exp: self.access_exp as int,
        }
    }
}

pub open spec fn wf_access(cv: AccessClaimsView) -> bool {
    &&& plain_field(cv.access_uuid)
    &&& plain_field(cv.username)
    &&& plain_field(cv.role)
    &&& 0 <= cv.exp <= MAX_INSTANT
}

pub open spec fn wf_refresh(rv: RefreshClaimsView) -> bool {
    &&& plain_field(rv.refresh_uuid)
    &&& plain_field(rv.access_uuid)
    &&& plain_field(rv.username)
    &&& 0 <= rv.refresh_exp <= MAX_INSTANT
    &&& 0 <= rv.access_exp <= MAX_INSTANT
}

pub open spec fn sep() -> Seq<char> {
    seq!['|']
}

pub open spec fn no_sep(s: Seq<char>) -> bool {
    forall|i: int| 0 <= i < s.len() ==> #[trigger] s[i] != '|'
}

pub proof fn lemma_plain_no_sep(s: Seq<char>)
    requires
        plain_field(s),
    ensures
        no_sep(s),
{
}

/// The claims payload carried inside an access token: the three identifier
/// fields joined by `'|'`; the expiry travels beside it as the token's
/// standard expiry claim.
pub open spec fn spec_access_data(cv: AccessClaimsView) -> Seq<char> {
    cv.access_uuid + sep() + cv.username + sep() + cv.role
}

/// The claims payload carried inside a refresh token: the three identifier
/// fields and the linked access expiry, twelve digits wide, joined by `'|'`;
/// the refresh expiry travels as the token's standard expiry claim.
pub open spec fn spec_refresh_data(rv: RefreshClaimsView) -> Seq<char> {
    rv.refresh_uuid + sep() + rv.access_uuid + sep() + rv.username + sep() + dec_fixed(
        rv.access_exp as nat,
        12,
    )
}

/// Where the separators of `a + '|' + b + '|' + c` sit, and that they sit
/// nowhere else.
pub proof fn lemma_joined3(a: Seq<char>, b: Seq<char>, c: Seq<char>)
    requires
        no_sep(a),
        no_sep(b),
        no_sep(c),
    ensures
        (a + sep() + b + sep() + c).len() == a.len() + b.len() + c.len() + 2,
        (a + sep() + b + sep() + c)[a.len() as int] == '|',
        (a + sep() + b + sep() + c)[(a.len() + 1 + b.len()) as int] == '|',
        forall|j: int|
            0 <= j < (a + sep() + b + sep() + c).len() && j != a.len() && j != a.len() + 1
                + b.len() ==> (a + sep() + b + sep() + c)[j] != '|',
        forall|j: int| 0 <= j < a.len() ==> (a + sep() + b + sep() + c)[j] == a[j],
        forall|j: int|
            0 <= j < b.len() ==> (a + sep() + b + sep() + c)[a.len() + 1 + j] == b[j],
        forall|j: int|
            0 <= j < c.len() ==> (a + sep() + b + sep() + c)[a.len() + 1 + b.len() + 1 + j]
                == c[j],
{
    let d = a + sep() + b + sep() + c;
    assert forall|j: int| 0 <= j < d.len() && j != a.len() && j != a.len() + 1 + b.len() implies d[j]
        != '|' by {
        if j < a.len() {
            assert(d[j] == a[j]);
        } else if j < a.len() + 1 + b.len() {
            assert(d[j] == b[j - a.len() - 1]);
        } else {
            assert(d[j] == c[j - a.len() - b.len() - 2]);
        }
    }
}

/// As `lemma_joined3`, for the four-field refresh payload.
pub proof fn lemma_joined4(a: Seq<char>, b: Seq<char>, c: Seq<char>, e: Seq<char>)
    requires
        no_sep(a),
        no_sep(b),
        no_sep(c),
        no_sep(e),
    ensures
        (a + sep() + b + sep() + c + sep() + e).len() == a.len() + b.len() + c.len() + e.len()
            + 3,
        (a + sep() + b + sep() + c + sep() + e)[a.len() as int] == '|',
        (a + sep() + b + sep() + c + sep() + e)[(a.len() + 1 + b.len()) as int] == '|',
        (a + sep() + b + sep() + c + sep() + e)[(a.len() + 1 + b.len() + 1 + c.len()) as int] == '|',
        forall|j: int|
            0 <= j < (a + sep() + b + sep() + c + sep() + e).len() && j != a.len() && j != a.len()
                + 1 + b.len() && j != a.len() + 1 + b.len() + 1 + c.len() ==> (a + sep() + b
                + sep() + c + sep() + e)[j] != '|',
        forall|j: int| 0 <= j < a.len() ==> (a + sep() + b + sep() + c + sep() + e)[j] == a[j],
        forall|j: int|
            0 <= j < b.len() ==> (a + sep() + b + sep() + c + sep() + e)[a.len() + 1 + j] == b[j],
        forall|j: int|
            0 <= j < c.len() ==> (a + sep() + b + sep() + c + sep() + e)[a.len() + 1 + b.len() + 1
                + j] == c[j],
        forall|j: int|
            0 <= j < e.len() ==> (a + sep() + b + sep() + c + sep() + e)[a.len() + 1 + b.len() + 1
                + c.len() + 1 + j] == e[j],
{
    let d = a + sep() + b + sep() + c + sep() + e;
    let p1: int = a.len() as int;
    let p2: int = (a.len() + 1 + b.len()) as int;
    let p3: int = (a.len() + 1 + b.len() + 1 + c.len()) as int;
    assert forall|j: int| 0 <= j < d.len() && j != p1 && j != p2 && j != p3 implies d[j]
        != '|' by {
        if j < p1 {
            assert(d[j] == a[j]);
        } else if j < p2 {
            assert(d[j] == b[j - a.len() - 1]);
        } else if j < p3 {
            assert(d[j] == c[j - a.len() - b.len() - 2]);
        } else {
            assert(d[j] == e[j - a.len() - b.len() - c.len() - 3]);
        }
    }
}

/// Reads an access payload back into claims, given the token's expiry claim.
/// Accepts exactly the strings `spec_access_data` produces for well-formed
/// claims with that expiry, and nothing else.
pub fn parse_access_data(data: &str, exp: i64) -> (r: Option<AccessClaims>)
    ensures
        r matches Some(c) ==> wf_access(c@) && c@.exp == exp && data@ == spec_access_data(c@),
        forall|cv: AccessClaimsView|
            wf_access(cv) && cv.exp == exp && data@ == spec_access_data(cv) ==> (r matches Some(
                c,
            ) && c@ == cv),
{
    let seps = crate::text::char_positions(data, '|');
    if seps.len() != 2 {
        proof {
            assert forall|cv: AccessClaimsView|
                wf_access(cv) && cv.exp == exp && data@ == spec_access_data(cv) implies false by {
                lemma_plain_no_sep(cv.access_uuid);
                lemma_plain_no_sep(cv.username);
                lemma_plain_no_sep(cv.role);
                lemma_joined3(cv.access_uuid, cv.username, cv.role);
                let p1: int = cv.access_uuid.len() as int;
                let p2: int = (cv.access_uuid.len() + 1 + cv.username.len()) as int;
                assert(data@[p1] == '|');
                assert(data@[p2] == '|');
                let k1 = choose|k: int| 0 <= k < seps@.len() && seps@[k] == p1;
                let k2 = choose|k: int| 0 <= k < seps@.len() && seps@[k] == p2;
                assert(k1 != k2);
                if seps@.len() < 2 {
                    assert(false);
                } else {
                    // three or more separators: a third one sits off both
                    // separator positions of the joined form
                    let j3: usize = seps@[2];
                    assert(data@[j3 as int] == '|');
                    assert(seps@[0] < seps@[1] < seps@[2]);
                    assert(j3 == p1 || j3 == p2);
                    assert(seps@[0] == p1 || seps@[0] == p2);
                    assert(seps@[1] == p1 || seps@[1] == p2);
                    assert(false);
                }
            }
        }
        return None;
    }
    let b1 = seps[0];
    let b2 = seps[1];
    let n = data.unicode_len();
    proof {
        assert(b1 < b2 < n);
        assert forall|cv: AccessClaimsView|
            wf_access(cv) && cv.exp == exp && data@ == spec_access_data(cv) implies cv.access_uuid
            == data@.subrange(0, b1 as int) && cv.username == data@.subrange(
            b1 + 1,
            b2 as int,
        ) && cv.role == data@.subrange(b2 + 1, n as int) by {
            lemma_plain_no_sep(cv.access_uuid);
            lemma_plain_no_sep(cv.username);
            lemma_plain_no_sep(cv.role);
            lemma_joined3(cv.access_uuid, cv.username, cv.role);
            let p1: int = cv.access_uuid.len() as int;
            let p2: int = (cv.access_uuid.len() + 1 + cv.username.len()) as int;
            assert(data@[p1] == '|');
            assert(data@[p2] == '|');
            let k1 = choose|k: int| 0 <= k < seps@.len() && seps@[k] == p1;
            let k2 = choose|k: int| 0 <= k < seps@.len() && seps@[k] == p2;
            assert(b1 == p1 || b1 == p2);
            if b1 == p2 {
                assert(0 <= k1 < 2 && seps@[k1] == p1);
                if k1 == 0 {
                    assert(false);
                } else {
                    assert(seps@[0] < seps@[1]);
                    assert(false);
                }
            }
            assert(b1 == p1);
            assert(b2 == p1 || b2 == p2);
            assert(b2 == p2);
            assert(cv.access_uuid =~= data@.subrange(0, b1 as int));
            assert(cv.username =~= data@.subrange(b1 + 1, b2 as int));
            assert(cv.role =~= data@.subrange(b2 + 1, n as int));
        }
    }
    let part1 = data.substring_char(0, b1);
    let part2 = data.substring_char(b1 + 1, b2);
    let part3 = data.substring_char(b2 + 1, n);
    if !is_plain_field(part1) || !is_plain_field(part2) || !is_plain_field(part3) {
        return None;
    }
    if !(0 <= exp && exp <= MAX_INSTANT) {
        return None;
    }
    let c = AccessClaims {
        access_uuid: part1.to_owned(),
        username: part2.to_owned(),
        role: part3.to_owned(),
        exp,
    };
    proof {
        lemma_plain_no_sep(c@.access_uuid);
        lemma_plain_no_sep(c@.username);
        lemma_plain_no_sep(c@.role);
        lemma_joined3(c@.access_uuid, c@.username, c@.role);
        assert(data@ =~= spec_access_data(c@));
    }
    Some(c)
}

/// Reads a refresh payload back into claims, given the token's expiry claim.
/// Accepts exactly the strings `spec_refresh_data` produces for well-formed
/// claims with that refresh expiry, and nothing else.
pub fn parse_refresh_data(data: &str, refresh_exp: i64) -> (r: Option<RefreshClaims>)
    ensures
        r matches Some(c) ==> wf_refresh(c@) && c@.refresh_exp == refresh_exp && data@
            == spec_refresh_data(c@),
        forall|rv: RefreshClaimsView|
            wf_refresh(rv) && rv.refresh_exp == refresh_exp && data@ == spec_refresh_data(rv)
                ==> (r matches Some(c) && c@ == rv),
{
    let seps = crate::text::char_positions(data, '|');
    if seps.len() != 3 {
        proof {
            assert forall|rv: RefreshClaimsView|
                wf_refresh(rv) && rv.refresh_exp == refresh_exp && data@ == spec_refresh_data(
                    rv,
                ) implies false by {
                refresh_seps_are(rv, data@, seps@);
                if seps@.len() < 3 {
                    assert(false);
                } else {
                    let j4: usize = seps@[3];
                    assert(data@[j4 as int] == '|');
                    assert(seps@[0] < seps@[1] < seps@[2] < seps@[3]);
                    assert(false);
                }
            }
        }
        return None;
    }
    let b1 = seps[0];
    let b2 = seps[1];
    let b3 = seps[2];
    let n = data.unicode_len();
    proof {
        assert(b1 < b2 < b3 < n);
        assert forall|rv: RefreshClaimsView|
            wf_refresh(rv) && rv.refresh_exp == refresh_exp && data@ == spec_refresh_data(
                rv,
            ) implies rv.refresh_uuid == data@.subrange(0, b1 as int) && rv.access_uuid
            == data@.subrange(b1 + 1, b2 as int) && rv.username == data@.subrange(b2 + 1, b3 as int)
            && dec_fixed(rv.access_exp as nat, 12) == data@.subrange(b3 + 1, n as int) by {
            refresh_seps_are(rv, data@, seps@);
            let p1: int = rv.refresh_uuid.len() as int;
            let p2: int = p1 + 1 + rv.access_uuid.len();
            let p3: int = p2 + 1 + rv.username.len();
            assert(b1 == p1 && b2 == p2 && b3 == p3);
            lemma_plain_no_sep(rv.refresh_uuid);
            lemma_plain_no_sep(rv.access_uuid);
            lemma_plain_no_sep(rv.username);
            lemma_dec_fixed_len(rv.access_exp as nat, 12);
            lemma_joined4(
                rv.refresh_uuid,
                rv.access_uuid,
                rv.username,
                dec_fixed(rv.access_exp as nat, 12),
            );
            assert(rv.refresh_uuid =~= data@.subrange(0, b1 as int));
            assert(rv.access_uuid =~= data@.subrange(b1 + 1, b2 as int));
            assert(rv.username =~= data@.subrange(b2 + 1, b3 as int));
            assert(dec_fixed(rv.access_exp as nat, 12) =~= data@.subrange(b3 + 1, n as int));
        }
    }
    let part1 = data.substring_char(0, b1);
    let part2 = data.substring_char(b1 + 1, b2);
    let part3 = data.substring_char(b2 + 1, b3);
    let part4 = data.substring_char(b3 + 1, n);
    if !is_plain_field(part1) || !is_plain_field(part2) || !is_plain_field(part3) {
        return None;
    }
    if part4.unicode_len() != 12 {
        proof {
            dec12_mismatch(part4@);
        }
        return None;
    }
    let v = match parse_digits(part4) {
        Some(v) => v,
        None => {
            proof {
                dec12_mismatch(part4@);
            }
            return None;
        },
    };
    if !(v <= MAX_INSTANT as u64) {
        proof {
            assert forall|e: int|
                0 <= e <= MAX_INSTANT && part4@ == #[trigger] dec_fixed(
                    e as nat,
                    12,
                ) implies false by {
                pow10_12_value();
                crate::text::lemma_dec_val_of_fixed(e as nat, 12);
            }
        }
        return None;
    }
    if !(0 <= refresh_exp && refresh_exp <= MAX_INSTANT) {
        return None;
    }
    let access_exp: i64 = v as i64;
    let c = RefreshClaims {
        refresh_uuid: part1.to_owned(),
        access_uuid: part2.to_owned(),
        username: part3.to_owned(),
        refresh_exp,
        access_exp,
    };
    proof {
        crate::text::lemma_dec_fixed_of_val(part4@, 12);
        lemma_plain_no_sep(c@.refresh_uuid);
        lemma_plain_no_sep(c@.access_uuid);
        lemma_plain_no_sep(c@.username);
        lemma_dec_fixed_len(c@.access_exp as nat, 12);
        lemma_joined4(
            c@.refresh_uuid,
            c@.access_uuid,
            c@.username,
            dec_fixed(c@.access_exp as nat, 12),
        );
        assert(data@ =~= spec_refresh_data(c@));
        assert forall|rv: RefreshClaimsView|
            wf_refresh(rv) && rv.refresh_exp == refresh_exp && data@ == spec_refresh_data(
                rv,
            ) implies c@ == rv by {
            pow10_12_value();
            crate::text::lemma_dec_val_of_fixed(rv.access_exp as nat, 12);
        }
    }
    Some(c)
}

proof fn pow10_12_value()
    ensures
        vstd::arithmetic::power::pow(10, 12) == 1_000_000_000_000,
{
    assert(vstd::arithmetic::power::pow(10, 12) == 1_000_000_000_000) by {
        reveal_with_fuel(vstd::arithmetic::power::pow, 13);
    }
}

/// A twelve-digit rendering exists only for strings of exactly twelve
/// digit characters.
proof fn dec12_mismatch(s: Seq<char>)
    ensures
        forall|e: int|
            0 <= e <= MAX_INSTANT && s == #[trigger] dec_fixed(e as nat, 12) ==> s.len() == 12 && (
            forall|i: int| 0 <= i < 12 ==> is_digit(#[trigger] s[i])),
{
    assert forall|e: int|
        0 <= e <= MAX_INSTANT && s == #[trigger] dec_fixed(e as nat, 12) implies s.len() == 12 && (
    forall|i: int| 0 <= i < 12 ==> is_digit(#[trigger] s[i])) by {
        lemma_dec_fixed_len(e as nat, 12);
    }
}

/// The separator positions of a refresh payload are exactly the three of
/// its joined form.
proof fn refresh_seps_are(rv: RefreshClaimsView, data: Seq<char>, seps: Seq<usize>)
    requires
        wf_refresh(rv),
        data == spec_refresh_data(rv),
        forall|k: int| 0 <= k < seps.len() ==> seps[k] < data.len() && data[seps[k] as int] == '|',
        forall|k1: int, k2: int| 0 <= k1 < k2 < seps.len() ==> seps[k1] < seps[k2],
        forall|j: int|
            0 <= j < data.len() && data[j] == '|' ==> exists|k: int|
                0 <= k < seps.len() && seps[k] == j,
    ensures
        seps.len() >= 3 ==> seps[0] == rv.refresh_uuid.len() && seps[1] == rv.refresh_uuid.len()
            + 1 + rv.access_uuid.len() && seps[2] == rv.refresh_uuid.len() + 1
            + rv.access_uuid.len() + 1 + rv.username.len(),
        seps.len() >= 3,
        forall|k: int|
            0 <= k < seps.len() ==> seps[k] == rv.refresh_uuid.len() || seps[k]
                == rv.refresh_uuid.len() + 1 + rv.access_uuid.len() || seps[k]
                == rv.refresh_uuid.len() + 1 + rv.access_uuid.len() + 1 + rv.username.len(),
{
    lemma_plain_no_sep(rv.refresh_uuid);
    lemma_plain_no_sep(rv.access_uuid);
    lemma_plain_no_sep(rv.username);
    lemma_dec_fixed_len(rv.access_exp as nat, 12);
    assert(no_sep(dec_fixed(rv.access_exp as nat, 12))) by {
        assert forall|i: int| 0 <= i < dec_fixed(rv.access_exp as nat, 12).len() implies #[trigger] dec_fixed(
            rv.access_exp as nat,
            12,
        )[i] != '|' by {
            assert(is_digit(dec_fixed(rv.access_exp as nat, 12)[i]));
            assert(digit_val('|') == 10);
        }
    }
    lemma_joined4(
        rv.refresh_uuid,
        rv.access_uuid,
        rv.username,
        dec_fixed(rv.access_exp as nat, 12),
    );
    let p1: int = rv.refresh_uuid.len() as int;
    let p2: int = p1 + 1 + rv.access_uuid.len();
    let p3: int = p2 + 1 + rv.username.len();
    assert(data[p1] == '|');
    assert(data[p2] == '|');
    assert(data[p3] == '|');
    let k1 = choose|k: int| 0 <= k < seps.len() && seps[k] == p1;
    let k2 = choose|k: int| 0 <= k < seps.len() && seps[k] == p2;
    let k3 = choose|k: int| 0 <= k < seps.len() && seps[k] == p3;
    assert(k1 != k2 && k2 != k3 && k1 != k3);
    assert(seps.len() >= 3);
    if seps.len() >= 3 {
        assert(seps[0] == p1 || seps[0] == p2 || seps[0] == p3);
        assert(seps[1] == p1 || seps[1] == p2 || seps[1] == p3);
        assert(seps[2] == p1 || seps[2] == p2 || seps[2] == p3);
        assert(seps[k1] == p1 && seps[k2] == p2 && seps[k3] == p3);
        // seps[0] is the least separator position, so it is p1
        assert(k1 == 0 || seps[0] < seps[k1]);
        assert(seps[0] <= p1);
        assert(seps[0] == p1);
        // p2 sits at an index of at least 1, so seps[1] <= p2, and it
        // exceeds seps[0] == p1
        assert(k2 != 0);
        assert(k2 == 1 || seps[1] < seps[k2]);
        assert(seps[0] < seps[1] <= p2);
        assert(seps[1] == p2);
        assert(k3 != 0 && k3 != 1);
        assert(k3 == 2 || seps[2] < seps[k3]);
        assert(seps[1] < seps[2] <= p3);
        assert(seps[2] == p3);
    }
}

/// Renders the access payload; the exact inverse of `parse_access_data`.
pub fn access_data(c: &AccessClaims) -> (r: String)
    ensures
        r@ == spec_access_data(c@),
{
    let mut out = c.access_uuid.clone();
    out.append("|");
    out.append(c.username.as_str());
    out.append("|");
    out.append(c.role.as_str());
    proof {
        reveal_strlit("|");
        assert("|"@ =~= sep());
        assert(out@ =~= spec_access_data(c@));
    }
    out
}

/// Renders the refresh payload; the exact inverse of `parse_refresh_data`.
pub fn refresh_data(c: &RefreshClaims) -> (r: String)
    requires
        0 <= c.access_exp,
    ensures
        r@ == spec_refresh_data(c@),
{
    let mut out = c.refresh_uuid.clone();
    out.append("|");
    out.append(c.access_uuid.as_str());
    out.append("|");
    out.append(c.username.as_str());
    out.append("|");
    append_dec_fixed(&mut out, c.access_exp as u64, 12);
    proof {
        reveal_strlit("|");
        assert("|"@ =~= sep());
        assert(out@ =~= spec_refresh_data(c@));
    }
    out
}

impl AccessClaims {
    /// Builds access claims lapsing fifteen minutes after `now`.
    pub fn new(access_uuid: String, username: String, role: String, now: i64) -> (c: AccessClaims)
        requires
            0 <= now <= MAX_INSTANT - REFRESH_TTL_SECS,
        ensures
            c@ == (AccessClaimsView {
                access_uuid: access_uuid@,
                username: username@,
                role: role@,
                exp: now + ACCESS_TTL_SECS,
            }),
    {
        AccessClaims { access_uuid, username, role, exp: now + ACCESS_TTL_SECS }
    }

    pub fn get_username(&self) -> (r: String)
        ensures
            r@ == self@.username,
    {
        self.username.clone()
    }

    pub fn get_role(&self) -> (r: String)
        ensures
            r@ == self@.role,
    {
        self.role.clone()
    }
}

impl RefreshClaims {
    /// Builds refresh claims referencing `ac`, lapsing seven days after
    /// `now`.
    pub fn new(refresh_uuid: String, ac: &AccessClaims, now: i64) -> (c: RefreshClaims)
        requires
            0 <= now <= MAX_INSTANT - REFRESH_TTL_SECS,
        ensures
            c@ == (RefreshClaimsView {
                refresh_uuid: refresh_uuid@,
                access_uuid: ac@.access_uuid,
                username: ac@.username,
                refresh_exp: now + REFRESH_TTL_SECS,
                access_exp: ac@.exp,
            }),
    {
        RefreshClaims {
            refresh_uuid,
            access_uuid: ac.access_uuid.clone(),
            username: ac.username.clone(),
            refresh_exp: now + REFRESH_TTL_SECS,
            access_exp: ac.exp,
        }
    }

    pub fn get_username(&self) -> (r: String)
        ensures
            r@ == self@.username,
    {
        self.username.clone()
    }
}

} // verus!

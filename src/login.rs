//! What the login dialog collects before a login can start.
use vstd::prelude::*;
use crate::session::GridSelectParamsData;

verus! {

/// Where to arrive after login.
#[derive(Debug, Clone, PartialEq, Eq)]
pub enum LoginDestination {
    /// The location at the last login.
    Last,
    /// Home.
    Home,
    /// A named region.
    Region(String),
}

impl Default for LoginDestination {
    fn default() -> (r: Self)
        ensures
            r == LoginDestination::Last,
    {
        LoginDestination::Last
    }
}

/// Unicode White_Space, the characters that `char::is_whitespace` accepts.
pub open spec fn white_space(c: char) -> bool {
    let u = c as u32;
    (0x9 <= u <= 0xd) || u == 0x20 || u == 0x85 || u == 0xa0 || u == 0x1680 || (0x2000 <= u <= 0x200a)
        || u == 0x2028 || u == 0x2029 || u == 0x202f || u == 0x205f || u == 0x3000
}

/// Whether `c` is Unicode white space.
pub fn is_white_space(c: char) -> (r: bool)
    ensures
        r == white_space(c),
{
    let u = c as u32;
    (0x9 <= u && u <= 0xd) || u == 0x20 || u == 0x85 || u == 0xa0 || u == 0x1680 || (0x2000 <= u && u
        <= 0x200a) || u == 0x2028 || u == 0x2029 || u == 0x202f || u == 0x205f || u == 0x3000
}

/// True when some character of `s` is not white space: `s` trimmed is not empty.
pub open spec fn has_content(s: Seq<char>) -> bool {
    exists|i: int| 0 <= i < s.len() && !white_space(s[i])
}

/// Relies on zeroize's impl for String: the bytes are overwritten with zeros
/// and the string is left empty.
#[verifier::external_body]
fn wipe(s: &mut String)
    ensures
        final(s)@ == Seq::<char>::empty(),
{
    zeroize::Zeroize::zeroize(s);
}

/// The fields of the login dialog. The password is wiped as soon as it has
/// been used.
#[derive(Debug, Default)]
pub struct LoginDialogInput {
    pub user_name: String,
    pub password: String,
    pub auth_token: Option<usize>,
    pub destination: LoginDestination,
}

impl LoginDialogInput {
    /// True when the minimum data for a login is filled in: a user name that is
    /// not only white space.
    pub fn is_filled_in(&self) -> (r: bool)
        ensures
            r == has_content(self.user_name@),
    {
        let s = self.user_name.as_str();
        let n = s.unicode_len();
        let mut i: usize = 0;
        while i < n
            invariant
                s@ == self.user_name@,
                n == s@.len(),
                0 <= i <= n,
                forall|k: int| 0 <= k < i ==> white_space(s@[k]),
            decreases n - i,
        {
            if !is_white_space(s.get_char(i)) {
                return true;
            }
            i += 1;
        }
        false
    }

    /// Wipe the password: its bytes are overwritten and it is left empty.
    pub fn zeroize(&mut self)
        ensures
            final(self).password@ == Seq::<char>::empty(),
            final(self).user_name == old(self).user_name,
            final(self).auth_token == old(self).auth_token,
            final(self).destination == old(self).destination,
    {
        wipe(&mut self.password);
    }
}

/// `s` without leading and trailing white space: the characters from the first
/// to the last that are not white space, or nothing when all are.
pub open spec fn trimmed(s: Seq<char>) -> Seq<char> {
    if has_content(s) {
        let a = choose|a: int| 0 <= a < s.len() && !white_space(s[a]) && forall|k: int| 0 <= k < a ==> white_space(s[k]);
        let b = choose|b: int| 0 <= b < s.len() && !white_space(s[b]) && forall|k: int| b < k < s.len() ==> white_space(s[k]);
        s.subrange(a, b + 1)
    } else {
        Seq::empty()
    }
}

/// `s` without leading and trailing white space.
pub fn trim(s: &str) -> (r: &str)
    ensures
        r@ == trimmed(s@),
{
    let n = s.unicode_len();
    let mut a: usize = 0;
    while a < n && is_white_space(s.get_char(a))
        invariant
            n == s@.len(),
            0 <= a <= n,
            forall|k: int| 0 <= k < a ==> white_space(s@[k]),
        decreases n - a,
    {
        a += 1;
    }
    if a == n {
        return s.substring_char(0, 0);
    }
    let mut b: usize = n - 1;
    while is_white_space(s.get_char(b))
        invariant
            n == s@.len(),
            a < n,
            a <= b < n,
            !white_space(s@[a as int]),
            forall|k: int| b < k < n ==> white_space(s@[k]),
        decreases b,
    {
        b -= 1;
    }
    proof {
        let sv = s@;
        assert(has_content(sv));
        let a2 = choose|a2: int| 0 <= a2 < sv.len() && !white_space(sv[a2]) && forall|k: int| 0 <= k < a2 ==> white_space(sv[k]);
        let b2 = choose|b2: int| 0 <= b2 < sv.len() && !white_space(sv[b2]) && forall|k: int| b2 < k < sv.len() ==> white_space(sv[k]);
        if a2 < a { assert(white_space(sv[a2])); }
        if a < a2 { assert(white_space(sv[a as int])); }
        if b2 < b { assert(white_space(sv[b as int])); }
        if b < b2 { assert(white_space(sv[b2])); }
    }
    s.substring_char(a, b + 1)
}

/// The MD5 digest of a text's UTF-8 bytes.
pub uninterp spec fn md5_of(text: Seq<char>) -> Seq<u8>;

/// Relies on md5::compute over the text's UTF-8 bytes: the 16-byte digest.
#[verifier::external_body]
fn md5_digest(text: &str) -> (r: [u8; 16])
    ensures
        r@ == md5_of(text@),
{
    md5::compute(text).0
}

/// The lower-case form of a string, as `str::to_lowercase` gives it.
pub uninterp spec fn lower_of(s: Seq<char>) -> Seq<char>;

/// Relies on str::to_lowercase: the result depends on the characters alone.
#[verifier::external_body]
fn lowercase(s: &str) -> (r: String)
    ensures
        r@ == lower_of(s@),
{
    s.to_lowercase()
}

/// The lower-case hex digit of `n` (below 16).
pub open spec fn hex_digit(n: u8) -> char {
    if n < 10 {
        ((n + 48) as u8) as char
    } else {
        ((n + 87) as u8) as char
    }
}

/// Two lower-case hex digits per byte, high digit first.
pub open spec fn hex_of(b: Seq<u8>) -> Seq<char>
    decreases b.len(),
{
    if b.len() == 0 {
        Seq::empty()
    } else {
        hex_of(b.drop_last()) + seq![hex_digit(b.last() / 16), hex_digit(b.last() % 16)]
    }
}

/// The hex digit for `n` (below 16), as a one-character string.
fn hex_digit_str(n: u8) -> (r: &'static str)
    requires
        n < 16,
    ensures
        r@ == seq![hex_digit(n)],
{
    let digits = "0123456789abcdef";
    proof {
        reveal_strlit("0123456789abcdef");
    }
    let r = digits.substring_char(n as usize, n as usize + 1);
    assert(r@ =~= seq![hex_digit(n)]) by {
        assert(digits@[n as int] == hex_digit(n)) by {
            assert(digits@ =~= seq!['0', '1', '2', '3', '4', '5', '6', '7', '8', '9', 'a', 'b', 'c', 'd', 'e', 'f']);
        }
    }
    r
}

/// The bytes of `b` as lower-case hex.
pub fn to_hex(b: &[u8]) -> (r: String)
    ensures
        r@ == hex_of(b@),
{
    let mut r = String::new();
    let mut i: usize = 0;
    assert(b@.take(0) =~= Seq::<u8>::empty());
    while i < b.len()
        invariant
            0 <= i <= b@.len(),
            r@ == hex_of(b@.take(i as int)),
        decreases b@.len() - i,
    {
        let x = b[i];
        r.append(hex_digit_str(x / 16));
        r.append(hex_digit_str(x % 16));
        assert(b@.take(i + 1).drop_last() =~= b@.take(i as int));
        assert(r@ =~= hex_of(b@.take(i + 1)));
        i += 1;
    }
    assert(b@.take(b@.len() as int) =~= b@);
    r
}

/// Credential keys start with this.
pub const CREDENTIAL_PREFIX: &'static str = "metaverse";
/// The credential type of a password.
pub const CRED_TYPE_PASS: &'static str = "pass";
/// The credential type of a token.
pub const CRED_TYPE_TOKEN: &'static str = "token";
/// Precedes the password's MD5 in hex.
pub const PASSWORD_PREFIX: &'static str = "$1$";

/// '.' and '/' become characters allowed in credential keys.
pub open spec fn special_translated(c: char) -> char {
    if c == '.' {
        '#'
    } else if c == '/' {
        '|'
    } else {
        c
    }
}

/// `s` without white space, with '.' and '/' translated, before lower-casing.
pub open spec fn key_chars(s: Seq<char>) -> Seq<char>
    decreases s.len(),
{
    if s.len() == 0 {
        Seq::empty()
    } else if white_space(s.last()) {
        key_chars(s.drop_last())
    } else {
        key_chars(s.drop_last()).push(special_translated(s.last()))
    }
}

/// The data needed to log in.
#[derive(Debug)]
pub struct LoginParams {
    /// Which grid.
    pub grid: GridSelectParamsData,
    /// Where on the grid.
    pub destination: LoginDestination,
    pub user_name: String,
    /// MD5 of the password with the prefix, ready for login.
    password_md5_opt: Option<String>,
    /// For two-factor authentication, later.
    pub auth_token: Option<usize>,
}

impl LoginParams {
    /// The public fields: grid, destination, user name, token.
    pub closed spec fn public_fields(&self) -> (GridSelectParamsData, LoginDestination, String, Option<usize>) {
        (self.grid, self.destination, self.user_name, self.auth_token)
    }

    pub closed spec fn password_md5(&self) -> Option<Seq<char>> {
        match self.password_md5_opt {
            Some(p) => Some(p@),
            None => None,
        }
    }

    /// Login parameters without a password.
    pub fn new(grid: GridSelectParamsData, destination: LoginDestination, user_name: String) -> (r: Self)
        ensures
            r.public_fields() == (grid, destination, user_name, None::<usize>),
            r.password_md5() is None,
    {
        LoginParams { grid, destination, user_name, password_md5_opt: None, auth_token: None }
    }

    /// '.' becomes '#', '/' becomes '|', other characters stay.
    pub fn translate_special_characters(c: char) -> (r: char)
        ensures
            r == special_translated(c),
    {
        if c == '.' {
            '#'
        } else if c == '/' {
            '|'
        } else {
            c
        }
    }

    /// A string made ready for use in a credential key: white space removed,
    /// '.' and '/' translated, lower case.
    pub fn prep_string(s: &str) -> (r: String)
        ensures
            r@ == lower_of(key_chars(s@)),
    {
        let n = s.unicode_len();
        let mut k = String::new();
        let mut i: usize = 0;
        assert(s@.take(0) =~= Seq::<char>::empty());
        while i < n
            invariant
                n == s@.len(),
                0 <= i <= n,
                k@ == key_chars(s@.take(i as int)),
            decreases n - i,
        {
            let c = s.get_char(i);
            assert(s@.take(i + 1).drop_last() =~= s@.take(i as int));
            if !is_white_space(c) {
                if c == '.' {
                    k.append("#");
                } else if c == '/' {
                    k.append("|");
                } else {
                    k.append(s.substring_char(i, i + 1));
                }
                proof {
                    reveal_strlit("#");
                    reveal_strlit("|");
                }
                assert(k@ =~= key_chars(s@.take(i + 1)));
            }
            i += 1;
        }
        assert(s@.take(n as int) =~= s@);
        lowercase(k.as_str())
    }

    /// The service name under which credentials of type `cred_type` are stored:
    /// "metaverse/METAVERSE/GRID/TYPE", with the two names made ready by `prep_string`.
    pub fn get_service(&self, cred_type: &str) -> (r: String)
        ensures
            r@ == seq!['m', 'e', 't', 'a', 'v', 'e', 'r', 's', 'e', '/'] + lower_of(key_chars(self.public_fields().0.metaverse@))
                + seq!['/'] + lower_of(key_chars(self.public_fields().0.grid@)) + seq!['/'] + cred_type@,
    {
        proof {
            reveal_strlit("metaverse");
            reveal_strlit("/");
        }
        let mut r = String::from_str(CREDENTIAL_PREFIX);
        r.append("/");
        r.append(LoginParams::prep_string(self.grid.metaverse.as_str()).as_str());
        r.append("/");
        r.append(LoginParams::prep_string(self.grid.grid.as_str()).as_str());
        r.append("/");
        r.append(cred_type);
        assert(r@ =~= seq!['m', 'e', 't', 'a', 'v', 'e', 'r', 's', 'e', '/'] + lower_of(key_chars(self.public_fields().0.metaverse@))
            + seq!['/'] + lower_of(key_chars(self.public_fields().0.grid@)) + seq!['/'] + cred_type@);
        r
    }

    /// The password's MD5 with its prefix, if set.
    pub fn get_password_md5(&self) -> (r: Option<String>)
        ensures
            match r {
                Some(p) => self.password_md5() == Some(p@),
                None => self.password_md5() is None,
            },
    {
        match &self.password_md5_opt {
            Some(p) => Some(p.clone()),
            None => None,
        }
    }

    /// Set the password from its MD5 digest: "$1$" and 32 lower-case hex digits;
    /// no digest clears it.
    pub fn set_password_md5(&mut self, digest_opt: Option<[u8; 16]>)
        ensures
            final(self).password_md5() == match digest_opt {
                Some(d) => Some(seq!['$', '1', '$'] + hex_of(d@)),
                None => None,
            },
            final(self).public_fields() == old(self).public_fields(),
    {
        match digest_opt {
            Some(d) => {
                proof {
                    reveal_strlit("$1$");
                }
                let mut p = String::from_str(PASSWORD_PREFIX);
                p.append(to_hex(&d).as_str());
                assert(p@ =~= seq!['$', '1', '$'] + hex_of(d@));
                self.password_md5_opt = Some(p);
            },
            None => {
                self.password_md5_opt = None;
            },
        }
    }

    /// Set the password from its text: the MD5 of the text without leading and
    /// trailing white space; an empty text clears it.
    pub fn set_password(&mut self, password: &str)
        ensures
            final(self).password_md5() == if password@.len() == 0 {
                None
            } else {
                Some(seq!['$', '1', '$'] + hex_of(md5_of(trimmed(password@))))
            },
            final(self).public_fields() == old(self).public_fields(),
    {
        if password.unicode_len() > 0 {
            let t = trim(password);
            let d = md5_digest(t);
            self.set_password_md5(Some(d));
        } else {
            self.set_password_md5(None);
        }
    }
}

} // verus!

//! Input validators for the account boundary: the shape an email address
//! must have, the minimum password length, and non-blank checks.

use vstd::prelude::*;
use vstd::string::StringSliceAdditionalSpecFns;

verus! {

// --- the email shape, character by character ---

pub open spec fn is_alpha(c: char) -> bool {
    ('a' as u32 <= c as u32 && c as u32 <= 'z' as u32) || ('A' as u32 <= c as u32 && c as u32
        <= 'Z' as u32)
}

pub open spec fn is_digit(c: char) -> bool {
    '0' as u32 <= c as u32 && c as u32 <= '9' as u32
}

/// Characters allowed before the `@`.
pub open spec fn is_local_char(c: char) -> bool {
    is_alpha(c) || is_digit(c) || c == '.' || c == '_' || c == '%' || c == '+' || c == '-'
}

/// Characters allowed in the domain before its last dot.
pub open spec fn is_domain_char(c: char) -> bool {
    is_alpha(c) || is_digit(c) || c == '.' || c == '-'
}

/// `s` splits into a valid address at `a` (the `@`) and `d` (the last
/// dot): a non-empty local part, a non-empty domain, and a final label of
/// at least two letters.
pub open spec fn email_split_at(s: Seq<char>, a: int, d: int) -> bool {
    &&& 1 <= a
    &&& a + 2 <= d
    &&& d + 3 <= s.len()
    &&& s[a] == '@'
    &&& s[d] == '.'
    &&& forall|i: int| 0 <= i < a ==> is_local_char(#[trigger] s[i])
    &&& forall|i: int| a < i < d ==> is_domain_char(#[trigger] s[i])
    &&& forall|i: int| d < i < s.len() ==> is_alpha(#[trigger] s[i])
}

/// The address shape: some split position works.
pub open spec fn valid_email(s: Seq<char>) -> bool {
    exists|a: int, d: int| #[trigger] email_split_at(s, a, d)
}

/// In a valid address, the split can only sit at the first `@` — the
/// character classes on either side rule `@` out everywhere else.
proof fn lemma_email_at_pinned(s: Seq<char>, at: int)
    requires
        valid_email(s),
        0 <= at < s.len(),
        s[at] == '@',
        forall|j: int| 0 <= j < at ==> s[j] != '@',
    ensures
        exists|d: int| #[trigger] email_split_at(s, at, d),
{
    let (a, d): (int, int) = choose|a: int, d: int| email_split_at(s, a, d);
    if a < at {
        assert(s[a] == '@');
        assert(false);
    }
    if a > at {
        assert(is_local_char(s[at]));
        assert(false);
    }
    assert(email_split_at(s, at, d));
}

/// And the dot can only be the last dot after that `@`.
proof fn lemma_email_split_pinned(s: Seq<char>, at: int, dot: int)
    requires
        valid_email(s),
        0 <= at < s.len(),
        s[at] == '@',
        forall|j: int| 0 <= j < at ==> s[j] != '@',
        at < dot < s.len(),
        s[dot] == '.',
        forall|k: int| dot < k < s.len() ==> s[k] != '.',
    ensures
        email_split_at(s, at, dot),
{
    lemma_email_at_pinned(s, at);
    let d = choose|d: int| #[trigger] email_split_at(s, at, d);
    if d < dot {
        assert(is_alpha(s[dot]));
        assert(false);
    }
    if d > dot {
        assert(s[d] != '.');
        assert(false);
    }
}

fn char_is_alpha(c: char) -> (r: bool)
    ensures
        r == is_alpha(c),
{
    let u = c as u32;
    (97 <= u && u <= 122) || (65 <= u && u <= 90)
}

fn char_is_local(c: char) -> (r: bool)
    ensures
        r == is_local_char(c),
{
    let u = c as u32;
    char_is_alpha(c) || (48 <= u && u <= 57) || c == '.' || c == '_' || c == '%' || c == '+' || c
        == '-'
}

fn char_is_domain(c: char) -> (r: bool)
    ensures
        r == is_domain_char(c),
{
    let u = c as u32;
    char_is_alpha(c) || (48 <= u && u <= 57) || c == '.' || c == '-'
}

/// Whether the string is a well-formed address: a non-empty local part of
/// letters, digits and `._%+-`, one `@`, a non-empty domain of letters,
/// digits, dots and hyphens, and a final label of at least two letters.
pub fn is_valid_email(email: &str) -> (r: bool)
    ensures
        r == valid_email(email@),
{
    let n = email.unicode_len();
    // the first '@'
    let mut i: usize = 0;
    while i < n && email.get_char(i) != '@'
        invariant
            n == email@.len(),
            i <= n,
            forall|j: int| 0 <= j < i ==> email@[j] != '@',
        decreases n - i,
    {
        i += 1;
    }
    if i >= n {
        proof {
            if valid_email(email@) {
                let (a, d): (int, int) = choose|a: int, d: int| email_split_at(email@, a, d);
                assert(email@[a] == '@');
            }
        }
        return false;
    }
    let at = i;
    if at == 0 {
        proof {
            if valid_email(email@) {
                lemma_email_at_pinned(email@, 0);
                let d = choose|d: int| #[trigger] email_split_at(email@, 0, d);
            }
        }
        return false;
    }
    // every character of the local part
    let mut j: usize = 0;
    while j < at
        invariant
            n == email@.len(),
            at < n,
            email@[at as int] == '@',
            forall|k: int| 0 <= k < at ==> email@[k] != '@',
            j <= at,
            forall|k: int| 0 <= k < j ==> is_local_char(#[trigger] email@[k]),
        decreases at - j,
    {
        if !char_is_local(email.get_char(j)) {
            proof {
                if valid_email(email@) {
                    lemma_email_at_pinned(email@, at as int);
                    let d = choose|d: int| #[trigger] email_split_at(email@, at as int, d);
                }
            }
            return false;
        }
        j += 1;
    }
    // the last dot after the '@'
    let mut dot: usize = 0;
    let mut has_dot = false;
    let mut k: usize = at + 1;
    while k < n
        invariant
            n == email@.len(),
            at < n,
            at + 1 <= k <= n,
            has_dot ==> at < dot < k && email@[dot as int] == '.' && (forall|t: int|
                dot < t < k ==> email@[t] != '.'),
            !has_dot ==> forall|t: int| at < t < k ==> email@[t] != '.',
        decreases n - k,
    {
        if email.get_char(k) == '.' {
            dot = k;
            has_dot = true;
        }
        k += 1;
    }
    if !has_dot {
        proof {
            if valid_email(email@) {
                lemma_email_at_pinned(email@, at as int);
                let d = choose|d: int| #[trigger] email_split_at(email@, at as int, d);
                assert(email@[d] == '.');
            }
        }
        return false;
    }
    if dot < at + 2 {
        proof {
            if valid_email(email@) {
                lemma_email_split_pinned(email@, at as int, dot as int);
            }
        }
        return false;
    }
    if n - dot < 3 {
        proof {
            if valid_email(email@) {
                lemma_email_split_pinned(email@, at as int, dot as int);
            }
        }
        return false;
    }
    // every character of the domain before the last dot
    let mut m: usize = at + 1;
    while m < dot
        invariant
            n == email@.len(),
            at < n,
            email@[at as int] == '@',
            forall|t: int| 0 <= t < at ==> email@[t] != '@',
            at < dot < n,
            email@[dot as int] == '.',
            forall|t: int| dot < t < n ==> email@[t] != '.',
            at + 1 <= m <= dot,
            forall|t: int| at < t < m ==> is_domain_char(#[trigger] email@[t]),
        decreases dot - m,
    {
        if !char_is_domain(email.get_char(m)) {
            proof {
                if valid_email(email@) {
                    lemma_email_split_pinned(email@, at as int, dot as int);
                }
            }
            return false;
        }
        m += 1;
    }
    // every character of the final label
    let mut t: usize = dot + 1;
    while t < n
        invariant
            n == email@.len(),
            at < n,
            email@[at as int] == '@',
            forall|u: int| 0 <= u < at ==> email@[u] != '@',
            at < dot < n,
            email@[dot as int] == '.',
            forall|u: int| dot < u < n ==> email@[u] != '.',
            dot + 1 <= t <= n,
            forall|u: int| dot < u < t ==> is_alpha(#[trigger] email@[u]),
        decreases n - t,
    {
        if !char_is_alpha(email.get_char(t)) {
            proof {
                if valid_email(email@) {
                    lemma_email_split_pinned(email@, at as int, dot as int);
                }
            }
            return false;
        }
        t += 1;
    }
    proof {
        assert(email_split_at(email@, at as int, dot as int));
    }
    true
}

/// A password needs at least six bytes.
pub fn is_valid_password(password: &str) -> (r: bool)
    ensures
        r == (password.spec_bytes().len() >= 6),
{
    password.as_bytes().len() >= 6
}

// --- blank detection via trimming ---

/// The Unicode White_Space characters, which trimming removes.
pub open spec fn is_space(c: char) -> bool {
    ||| c == '\u{9}'
    ||| c == '\u{A}'
    ||| c == '\u{B}'
    ||| c == '\u{C}'
    ||| c == '\u{D}'
    ||| c == ' '
    ||| c == '\u{85}'
    ||| c == '\u{A0}'
    ||| c == '\u{1680}'
    ||| ('\u{2000}' as u32 <= c as u32 && c as u32 <= '\u{200A}' as u32)
    ||| c == '\u{2028}'
    ||| c == '\u{2029}'
    ||| c == '\u{202F}'
    ||| c == '\u{205F}'
    ||| c == '\u{3000}'
}

/// `s` without its leading whitespace.
pub open spec fn trim_front(s: Seq<char>) -> Seq<char>
    decreases s.len(),
{
    if s.len() > 0 && is_space(s[0]) {
        trim_front(s.drop_first())
    } else {
        s
    }
}

/// `s` without its trailing whitespace.
pub open spec fn trim_back(s: Seq<char>) -> Seq<char>
    decreases s.len(),
{
    if s.len() > 0 && is_space(s.last()) {
        trim_back(s.drop_last())
    } else {
        s
    }
}

/// `s` without leading and trailing whitespace.
pub open spec fn trimmed(s: Seq<char>) -> Seq<char> {
    trim_back(trim_front(s))
}

/// Relies on str::trim: it returns the slice with leading and trailing
/// Unicode whitespace removed.
pub assume_specification<'a>[ str::trim ](s: &'a str) -> (res: &'a str)
    ensures
        res@ == trimmed(s@),
;

/// Whether anything but whitespace is in the string.
pub fn is_not_empty(value: &str) -> (r: bool)
    ensures
        r == (trimmed(value@).len() != 0),
{
    !value.trim().is_empty()
}

// --- combined account-input validation ---

/// Check an email and password together. Each field contributes at most
/// one message, the email's first: an empty field is reported as empty,
/// a malformed email or short password as such.
pub fn validate_user_input(email: &str, password: &str) -> (r: Result<(), Vec<String>>)
    ensures
        ({
            let eerr: int = if email@.len() == 0 || !valid_email(email@) {
                1int
            } else {
                0int
            };
            let perr: int = if password@.len() == 0 || password.spec_bytes().len() < 6 {
                1int
            } else {
                0int
            };
            match r {
                Ok(()) => eerr == 0 && perr == 0,
                Err(v) => {
                    &&& eerr + perr >= 1
                    &&& v@.len() == eerr + perr
                    &&& (email@.len() == 0 ==> v@[0]@ == "邮箱不能为空"@)
                    &&& (email@.len() > 0 && !valid_email(email@) ==> v@[0]@ == "邮箱格式无效"@)
                    &&& (password@.len() == 0 ==> v@[eerr]@ == "密码不能为空"@)
                    &&& (password@.len() > 0 && password.spec_bytes().len() < 6 ==> v@[eerr]@
                        == "密码至少需要6个字符"@)
                },
            }
        }),
{
    let mut errors: Vec<String> = Vec::new();
    if email.is_empty() {
        errors.push("邮箱不能为空".to_owned());
    } else if !is_valid_email(email) {
        errors.push("邮箱格式无效".to_owned());
    }
    if password.is_empty() {
        errors.push("密码不能为空".to_owned());
    } else if !is_valid_password(password) {
        errors.push("密码至少需要6个字符".to_owned());
    }
    if errors.is_empty() {
        Ok(())
    } else {
        Err(errors)
    }
}

} // verus!

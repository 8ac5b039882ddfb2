use vstd::prelude::*;

verus! {

/// Why a configuration line was refused.
#[derive(Debug, Clone, Copy, PartialEq, Eq, Structural)]
pub enum ConfigError {
    /// The line has a key but no `=` and value.
    MalformedValue,
}

/// A character of Unicode's White_Space property.
pub open spec fn is_white_space(c: char) -> bool {
    let u = c as u32;
    (0x9 <= u <= 0xd) || u == 0x20 || u == 0x85 || u == 0xa0 || u == 0x1680 || (0x2000 <= u
        <= 0x200a) || u == 0x2028 || u == 0x2029 || u == 0x202f || u == 0x205f || u == 0x3000
}

pub open spec fn trim_front(s: Seq<char>) -> Seq<char>
    decreases s.len(),
{
    if s.len() > 0 && is_white_space(s[0]) {
        trim_front(s.drop_first())
    } else {
        s
    }
}

pub open spec fn trim_back(s: Seq<char>) -> Seq<char>
    decreases s.len(),
{
    if s.len() > 0 && is_white_space(s.last()) {
        trim_back(s.drop_last())
    } else {
        s
    }
}

/// The text with leading and trailing whitespace removed.
pub open spec fn trimmed(s: Seq<char>) -> Seq<char> {
    trim_back(trim_front(s))
}

/// Relies on str::trim: it removes the leading and trailing characters of
/// Unicode's White_Space property.
#[verifier::external_body]
fn trim_line(s: &str) -> (r: String)
    ensures
        r@ == trimmed(s@),
{
    s.trim().to_string()
}

/// The position of the first `=` at or after `i`, or the length.
pub open spec fn eq_from(s: Seq<char>, i: int) -> int
    decreases s.len() - i,
{
    if i >= s.len() {
        s.len() as int
    } else if s[i] == '=' {
        i
    } else {
        eq_from(s, i + 1)
    }
}

/// A trimmed line: empty lines and `#` comments hold no entry; otherwise
/// the key is the text before the first `=` and the value the text up to
/// the next `=`.
pub open spec fn config_line_spec(t: Seq<char>) -> Result<
    Option<(Seq<char>, Seq<char>)>,
    ConfigError,
> {
    if t.len() == 0 || t[0] == '#' {
        Ok(None)
    } else {
        let p = eq_from(t, 0);
        if p >= t.len() {
            Err(ConfigError::MalformedValue)
        } else {
            Ok(Some((t.subrange(0, p), t.subrange(p + 1, eq_from(t, p + 1)))))
        }
    }
}

pub open spec fn entry_model(r: Result<Option<(String, String)>, ConfigError>) -> Result<
    Option<(Seq<char>, Seq<char>)>,
    ConfigError,
> {
    match r {
        Ok(Some((k, v))) => Ok(Some((k@, v@))),
        Ok(None) => Ok(None),
        Err(e) => Err(e),
    }
}

fn find_eq(t: &str, from: usize, n: usize) -> (p: usize)
    requires
        from <= n,
        n == t@.len(),
    ensures
        p == eq_from(t@, from as int),
        from <= p <= n,
{
    let mut i: usize = from;
    while i < n && t.get_char(i) != '='
        invariant
            from <= i <= n,
            n == t@.len(),
            eq_from(t@, from as int) == eq_from(t@, i as int),
        decreases n - i,
    {
        i = i + 1;
    }
    i
}

/// Reads one trimmed line of a configuration file.
pub fn parse_config_line(t: &str) -> (r: Result<Option<(String, String)>, ConfigError>)
    ensures
        entry_model(r) == config_line_spec(t@),
{
    let n: usize = t.unicode_len();
    if n == 0 || t.get_char(0) == '#' {
        return Ok(None);
    }
    let p: usize = find_eq(t, 0, n);
    if p >= n {
        return Err(ConfigError::MalformedValue);
    }
    let q: usize = find_eq(t, p + 1, n);
    let key = String::from_str(t.substring_char(0, p));
    let value = String::from_str(t.substring_char(p + 1, q));
    Ok(Some((key, value)))
}

/// Reads one line of a configuration file after trimming it.
pub fn config_entry(line: &str) -> (r: Result<Option<(String, String)>, ConfigError>)
    ensures
        entry_model(r) == config_line_spec(trimmed(line@)),
{
    let t = trim_line(line);
    parse_config_line(t.as_str())
}

} // verus!

//! The rules that turn the environment's settings into the site's
//! configuration. Reading the environment is the program's part.
use vstd::prelude::*;

use crate::text::{
    chars_of, lower_seq, lower_vec, push_char, push_str, starts, starts_with, str_eq,
    string_from_chars, string_of, trim, trimmed,
};
use crate::timefmt::{trim_end_char, trim_end_char_vec};

verus! {

/// A switch is on where it reads `1`, `true`, `yes` or `on`, in any case.
pub open spec fn flag_on(raw: Seq<char>) -> bool {
    let v = lower_seq(raw);
    v == "1"@ || v == "true"@ || v == "yes"@ || v == "on"@
}

pub fn env_flag(raw: &str) -> (r: bool)
    ensures
        r == flag_on(raw@),
{
    let v = string_from_chars(&lower_vec(&chars_of(raw)));
    let s = v.as_str();
    str_eq(s, "1") || str_eq(s, "true") || str_eq(s, "yes") || str_eq(s, "on")
}

/// The public origin: trimmed, without trailing slashes, none where
/// nothing is left; refused where it is not an `http://` or `https://`
/// address.
pub open spec fn origin_setting_of(raw: Option<Seq<char>>) -> Result<Option<Seq<char>>, Seq<char>> {
    match raw {
        None => Ok(None),
        Some(r) => {
            let o = trim_end_char(trim(r), '/');
            if o.len() == 0 {
                Ok(None)
            } else if starts(o, "http://"@) || starts(o, "https://"@) {
                Ok(Some(o))
            } else {
                Err("OAKIS_PUBLIC_ORIGIN 必须以 http:// 或 https:// 开头"@)
            }
        },
    }
}

pub fn origin_setting(raw: Option<&str>) -> (r: Result<Option<String>, &'static str>)
    ensures
        match r {
            Ok(Some(o)) => origin_setting_of(
                match raw {
                    Some(s) => Some(s@),
                    None => None,
                },
            ) == Ok::<Option<Seq<char>>, Seq<char>>(Some(o@)),
            Ok(None) => origin_setting_of(
                match raw {
                    Some(s) => Some(s@),
                    None => None,
                },
            ) == Ok::<Option<Seq<char>>, Seq<char>>(None),
            Err(m) => origin_setting_of(
                match raw {
                    Some(s) => Some(s@),
                    None => None,
                },
            ) == Err::<Option<Seq<char>>, Seq<char>>(m@),
        },
{
    match raw {
        None => Ok(None),
        Some(r) => {
            let o = trim_end_char_vec(&trimmed(r), '/');
            if o.len() == 0 {
                return Ok(None);
            }
            if starts_with(&o, "http://") || starts_with(&o, "https://") {
                Ok(Some(string_from_chars(&o)))
            } else {
                Err("OAKIS_PUBLIC_ORIGIN 必须以 http:// 或 https:// 开头")
            }
        },
    }
}

/// The database address for a file: `sqlite:`, the path with backslashes
/// turned to slashes, and `?mode=rwc`.
pub open spec fn sqlite_url_of(path: Seq<char>) -> Seq<char> {
    "sqlite:"@ + path.map_values(|c: char| if c == '\\' { '/' } else { c }) + "?mode=rwc"@
}

pub fn sqlite_url(path: &str) -> (r: String)
    ensures
        r@ == sqlite_url_of(path@),
{
    let v = chars_of(path);
    let mut out = string_of("sqlite:");
    let ghost head = out@;
    let mut i: usize = 0;
    while i < v.len()
        invariant
            0 <= i <= v.len(),
            v@ == path@,
            head == "sqlite:"@,
            out@ == head + v@.take(i as int).map_values(|c: char| if c == '\\' { '/' } else { c }),
        decreases v.len() - i,
    {
        let c = v[i];
        push_char(&mut out, if c == '\\' { '/' } else { c });
        i = i + 1;
        assert(v@.take(i as int).map_values(|c: char| if c == '\\' { '/' } else { c })
            =~= v@.take(i - 1).map_values(|c: char| if c == '\\' { '/' } else { c }).push(
            if c == '\\' { '/' } else { c },
        ));
        assert(out@ =~= head + v@.take(i as int).map_values(|c: char| if c == '\\' { '/' } else { c }));
    }
    assert(v@.take(v@.len() as int) =~= v@);
    push_str(&mut out, "?mode=rwc");
    out
}

} // verus!

//! The free-form terminal feature: tokenize the typed command, decide which
//! binary it addresses, and inject the active device's serial where the
//! command does not carry one.
use vstd::prelude::*;
use crate::config::opt_view;
use crate::text::{views_of, vec_contains_str, str_eq, push_lit, push_string};
use crate::tokenizer::{split_args, split_whitespace_tokens, spec_split_args, spec_ws_tokens};

verus! {

/// A name for what `str::to_lowercase` returns: the result depends on the
/// characters alone.
pub uninterp spec fn lower_of(s: Seq<char>) -> Seq<char>;

/// Relies on str::to_lowercase: the lowercase equivalent of the string,
/// a function of its characters alone; an empty string stays empty.
#[verifier::external_body]
fn lowercase(s: &str) -> (r: String)
    ensures
        r@ == lower_of(s@),
        s@.len() == 0 ==> r@.len() == 0,
{
    s.to_lowercase()
}

/// The tokens the terminal works on: the quote-aware split, or the plain
/// whitespace split when a quote stays open.
pub open spec fn term_tokens(cmd: Seq<char>) -> Seq<Seq<char>> {
    match spec_split_args(cmd) {
        Ok(t) => t,
        Err(_) => spec_ws_tokens(cmd),
    }
}

/// What the terminal runs: the chosen binary's logical name and the
/// arguments handed to it.
#[derive(Debug)]
pub struct TerminalPlan {
    pub binary: String,
    pub args: Vec<String>,
}

/// The planning rule. The first token names the binary when it reads
/// `scrcpy` or `adb` in any case, and is then consumed; the bridge is the
/// default. The active device's serial is injected unless the command
/// already carries one, no device is active, or the command is one of the
/// bridge's global subcommands.
pub open spec fn spec_terminal_plan(cmd: Seq<char>, device: Option<Seq<char>>) -> Result<
    (Seq<char>, Seq<Seq<char>>),
    Seq<char>,
> {
    let parts = term_tokens(cmd);
    if parts.len() == 0 {
        Err("No command provided"@)
    } else {
        let first = lower_of(parts[0]);
        let is_scrcpy = first == "scrcpy"@;
        let is_adb = first == "adb"@;
        let binary = if is_scrcpy {
            "scrcpy"@
        } else {
            "adb"@
        };
        let rest = if is_scrcpy || is_adb {
            parts.skip(1)
        } else {
            parts
        };
        let has_serial = rest.contains("-s"@) || rest.contains("--serial"@);
        let global_adb = !is_scrcpy && rest.len() > 0 && (rest[0] == "devices"@ || rest[0]
            == "connect"@ || rest[0] == "pair"@);
        let inject = !has_serial && (match device {
            Some(d) => d.len() > 0,
            None => false,
        }) && !global_adb;
        let args = if inject {
            seq!["-s"@, device.unwrap()] + rest
        } else {
            rest
        };
        Ok((binary, args))
    }
}

/// Plans one terminal command; the result is exactly the planning rule
/// applied to the typed text and the active device.
pub fn plan_terminal_command(device: &Option<String>, cmd: &str) -> (r: Result<
    TerminalPlan,
    String,
>)
    ensures
        match r {
            Ok(p) => spec_terminal_plan(cmd@, opt_view(*device)) == Ok::<
                (Seq<char>, Seq<Seq<char>>),
                Seq<char>,
            >((p.binary@, views_of(p.args@))),
            Err(e) => spec_terminal_plan(cmd@, opt_view(*device)) == Err::<
                (Seq<char>, Seq<Seq<char>>),
                Seq<char>,
            >(e@),
        },
{
    let mut parts = match split_args(cmd) {
        Ok(v) => v,
        Err(_) => split_whitespace_tokens(cmd),
    };
    proof {
        assert(views_of(parts@) == term_tokens(cmd@));
    }
    if parts.is_empty() {
        return Err(String::from_str("No command provided"));
    }
    let ghost tokens = views_of(parts@);
    let first_lower = lowercase(parts[0].as_str());
    let is_scrcpy = str_eq(first_lower.as_str(), "scrcpy");
    let is_adb = str_eq(first_lower.as_str(), "adb");
    let binary = if is_scrcpy {
        String::from_str("scrcpy")
    } else {
        String::from_str("adb")
    };
    if is_scrcpy || is_adb {
        parts.remove(0);
        proof {
            assert(views_of(parts@) =~= tokens.skip(1));
        }
    }
    let ghost rest = views_of(parts@);
    let has_serial = vec_contains_str(&parts, "-s") || vec_contains_str(&parts, "--serial");
    let device_active = match device {
        Some(d) => !d.as_str().is_empty(),
        None => false,
    };
    let global_adb = !is_scrcpy && !parts.is_empty() && (str_eq(parts[0].as_str(), "devices")
        || str_eq(parts[0].as_str(), "connect") || str_eq(parts[0].as_str(), "pair"));
    proof {
        reveal_strlit("scrcpy");
        reveal_strlit("adb");
        assert("scrcpy"@.len() == 6 && "adb"@.len() == 3);
        assert(rest.len() > 0 ==> rest[0] == parts@[0]@);
    }
    let inject = !has_serial && device_active && !global_adb;
    if inject {
        let d = match device {
            Some(d) => d.clone(),
            None => String::new(),
        };
        let mut args: Vec<String> = Vec::new();
        assert(views_of(args@) =~= Seq::<Seq<char>>::empty());
        push_lit(&mut args, "-s");
        push_string(&mut args, d);
        proof {
            crate::args::lemma_views_of_concat(args@, parts@);
        }
        args.append(&mut parts);
        proof {
            assert(views_of(args@) =~= seq!["-s"@, opt_view(*device).unwrap()] + rest);
        }
        Ok(TerminalPlan { binary, args })
    } else {
        Ok(TerminalPlan { binary, args: parts })
    }
}

} // verus!

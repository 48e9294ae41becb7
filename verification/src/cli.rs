//! The command line: where the path of the configuration file is named.

use crate::error::{AppError, ErrorKind};
use crate::selector::text_option_view;
use crate::text::{is_blank, is_blank_str, push_str, starts_with, string_of, strip_prefix};
use vstd::prelude::*;

verus! {

/// The message for a flag that no value follows.
pub open spec fn missing_value_text(flag: Seq<char>) -> Seq<char> {
    "Expected a file path after the `"@ + flag + "` flag"@
}

/// The message for a flag whose value is empty or blank.
pub open spec fn empty_value_text(flag: Seq<char>) -> Seq<char> {
    flag + " flag requires a non-empty file path"@
}

/// The message for a second flag.
pub open spec fn repeated_text() -> Seq<char> {
    "`--config`/`-c` flags can only be provided once per invocation"@
}

/// The path after one more flag: the value of the flag, unless it is blank
/// or a path was named before.
pub open spec fn with_override(current: Option<Seq<char>>, candidate: Seq<char>, flag: Seq<char>)
    -> Result<Option<Seq<char>>, Seq<char>> {
    if is_blank(candidate) {
        Err(empty_value_text(flag))
    } else if current is Some {
        Err(repeated_text())
    } else {
        Ok(Some(candidate))
    }
}

/// What follows `p` in `s`.
pub open spec fn after_prefix(s: Seq<char>, p: Seq<char>) -> Seq<char> {
    s.subrange(p.len() as int, s.len() as int)
}

/// The path that the arguments from `i` on name. `--config` and `-c` take
/// the next argument as their value; `--config=` and `-c=` carry it with
/// them; `--` ends the reading; anything else is passed over.
pub open spec fn override_from(args: Seq<Seq<char>>, i: nat, current: Option<Seq<char>>) -> Result<
    Option<Seq<char>>,
    Seq<char>,
>
    decreases args.len() - i,
{
    if i >= args.len() {
        Ok(current)
    } else {
        let arg = args[i as int];
        if arg == "--"@ {
            Ok(current)
        } else if arg == "--config"@ || arg == "-c"@ {
            if i + 1 >= args.len() {
                Err(missing_value_text(arg))
            } else {
                match with_override(current, args[(i + 1) as int], arg) {
                    Err(e) => Err(e),
                    Ok(next) => override_from(args, i + 2, next),
                }
            }
        } else if starts_with(arg, "--config="@) {
            match with_override(current, after_prefix(arg, "--config="@), "--config"@) {
                Err(e) => Err(e),
                Ok(next) => override_from(args, i + 1, next),
            }
        } else if starts_with(arg, "-c="@) {
            match with_override(current, after_prefix(arg, "-c="@), "-c"@) {
                Err(e) => Err(e),
                Ok(next) => override_from(args, i + 1, next),
            }
        } else {
            override_from(args, i + 1, current)
        }
    }
}

pub open spec fn argument_views(args: Seq<String>) -> Seq<Seq<char>> {
    Seq::new(args.len(), |i: int| args[i]@)
}

/// Takes the value of one flag as the path of the configuration file.
pub fn set_config_override(target: &mut Option<String>, candidate: &str, flag: &str) -> (r: Result<
    (),
    AppError,
>)
    ensures
        match r {
            Ok(()) => with_override(text_option_view(*old(target)), candidate@, flag@) == Ok::<
                Option<Seq<char>>,
                Seq<char>,
            >(text_option_view(*final(target))),
            Err(e) => with_override(text_option_view(*old(target)), candidate@, flag@) == Err::<
                Option<Seq<char>>,
                Seq<char>,
            >(e@.detail) && e@.kind == ErrorKind::Config && *final(target) == *old(target),
        },
{
    if is_blank_str(candidate) {
        let mut out: Vec<char> = Vec::new();
        push_str(&mut out, flag);
        push_str(&mut out, " flag requires a non-empty file path");
        return Err(AppError::Config(string_of(&out)));
    }
    if target.is_some() {
        return Err(
            AppError::Config(
                "`--config`/`-c` flags can only be provided once per invocation".to_owned(),
            ),
        );
    }
    *target = Some(candidate.to_owned());
    Ok(())
}

pub open spec fn override_result_view(r: Result<Option<String>, AppError>) -> Result<
    Option<Seq<char>>,
    Seq<char>,
> {
    match r {
        Ok(p) => Ok(text_option_view(p)),
        Err(e) => Err(e@.detail),
    }
}

/// Reads the path of the configuration file from the arguments.
pub fn parse_config_override_from_args(args: &[String]) -> (r: Result<Option<String>, AppError>)
    ensures
        override_result_view(r) == override_from(argument_views(args@), 0, None),
        r matches Err(e) ==> e@.kind == ErrorKind::Config,
{
    let ghost views = argument_views(args@);
    let mut override_path: Option<String> = None;
    let mut index: usize = 0;
    while index < args.len()
        invariant
            index <= args.len(),
            views == argument_views(args@),
            override_from(views, 0, None) == override_from(
                views,
                index as nat,
                text_option_view(override_path),
            ),
        decreases args.len() - index,
    {
        let arg = &args[index];
        assert(views[index as int] == arg@);
        if str::eq(arg.as_str(), "--") {
            return Ok(override_path);
        }
        if str::eq(arg.as_str(), "--config") || str::eq(arg.as_str(), "-c") {
            if index + 1 >= args.len() {
                let mut out: Vec<char> = Vec::new();
                push_str(&mut out, "Expected a file path after the `");
                push_str(&mut out, arg.as_str());
                push_str(&mut out, "` flag");
                return Err(AppError::Config(string_of(&out)));
            }
            assert(views[index + 1] == args@[index + 1]@);
            match set_config_override(&mut override_path, args[index + 1].as_str(), arg.as_str()) {
                Err(e) => {
                    return Err(e);
                },
                Ok(()) => {},
            }
            index = index + 2;
            continue ;
        }
        if let Some(rest) = strip_prefix(arg.as_str(), "--config=") {
            match set_config_override(&mut override_path, rest.as_str(), "--config") {
                Err(e) => {
                    return Err(e);
                },
                Ok(()) => {},
            }
            index = index + 1;
            continue ;
        }
        if let Some(rest) = strip_prefix(arg.as_str(), "-c=") {
            match set_config_override(&mut override_path, rest.as_str(), "-c") {
                Err(e) => {
                    return Err(e);
                },
                Ok(()) => {},
            }
            index = index + 1;
            continue ;
        }
        index = index + 1;
    }
    Ok(override_path)
}

} // verus!

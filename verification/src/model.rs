//! A user's face models: where they live, how Howdy's CLI is asked to change them,
//! and how their timestamps read. Listing parses the model file (JSON) and
//! enrolling/removing runs Howdy's CLI; the caller does both.
use vstd::prelude::*;

use crate::text::{
    decimal, join_path, owned, path_join, push_decimal, push_signed, push_str, push_zero_padded,
    signed_decimal, zero_padded,
};

verus! {

/// One enrolled face model (the large encoding array of the file is not kept).
#[derive(Debug, Clone)]
pub struct Model {
    pub id: u32,
    pub label: String,
    /// Unix timestamp the model was enrolled.
    pub time: i64,
}

/// `<base>/models/<user>.dat`.
pub open spec fn model_path_spec(base: Seq<char>, user: Seq<char>) -> Seq<char> {
    path_join(path_join(base, "models"@), user + ".dat"@)
}

/// Path to a user's model file under the Howdy base directory.
pub fn model_path(base: &str, user: &str) -> (p: String)
    ensures
        p@ == model_path_spec(base@, user@),
{
    let models = join_path(base, "models");
    let mut file = owned(user);
    push_str(&mut file, ".dat");
    join_path(models.as_str(), file.as_str())
}

/// Path to Howdy's Python CLI, run directly to dodge `$PATH` surprises under
/// `pkexec`.
pub fn cli_py(base: &str) -> (p: String)
    ensures
        p@ == path_join(base@, "cli.py"@),
{
    join_path(base, "cli.py")
}

/// The views of a list of strings.
pub open spec fn views(v: Seq<String>) -> Seq<Seq<char>> {
    v.map_values(|s: String| s@)
}

/// Arguments to `python3` for running the CLI at `cli` on `user` with `args`.
pub open spec fn cli_argv(cli: Seq<char>, user: Seq<char>, args: Seq<Seq<char>>) -> Seq<Seq<char>> {
    seq![cli, "-U"@, user] + args
}

fn argv3(cli: &str, user: &str) -> (v: Vec<String>)
    ensures
        views(v@) == seq![cli@, "-U"@, user@],
{
    let mut v: Vec<String> = Vec::new();
    v.push(owned(cli));
    v.push(owned("-U"));
    v.push(owned(user));
    assert(views(v@) =~= seq![cli@, "-U"@, user@]);
    v
}

/// `python3` arguments that remove model `id` of `user` (root required).
pub fn remove_args(cli: &str, user: &str, id: u32) -> (v: Vec<String>)
    ensures
        views(v@) == cli_argv(cli@, user@, seq!["-y"@, "remove"@, decimal(id as nat)]),
{
    let mut v = argv3(cli, user);
    let ghost v0 = v@;
    v.push(owned("-y"));
    v.push(owned("remove"));
    let mut n = String::new();
    push_decimal(&mut n, id as u64);
    v.push(n);
    assert(views(v@) =~= cli_argv(cli@, user@, seq!["-y"@, "remove"@, decimal(id as nat)]));
    v
}

/// `python3` arguments that remove all models of `user` (root required).
pub fn clear_args(cli: &str, user: &str) -> (v: Vec<String>)
    ensures
        views(v@) == cli_argv(cli@, user@, seq!["-y"@, "clear"@]),
{
    let mut v = argv3(cli, user);
    v.push(owned("-y"));
    v.push(owned("clear"));
    assert(views(v@) =~= cli_argv(cli@, user@, seq!["-y"@, "clear"@]));
    v
}

/// `python3` arguments that enroll a model for `user` (root required). With a
/// label, Howdy asks for it and the caller feeds `label` on stdin; without one,
/// `-y` takes Howdy's default.
pub fn add_args(cli: &str, user: &str, has_label: bool) -> (v: Vec<String>)
    ensures
        views(v@) == cli_argv(cli@, user@, if has_label {
            seq!["add"@]
        } else {
            seq!["-y"@, "add"@]
        }),
{
    let mut v = argv3(cli, user);
    if !has_label {
        v.push(owned("-y"));
    }
    v.push(owned("add"));
    assert(views(v@) =~= cli_argv(cli@, user@, if has_label {
        seq!["add"@]
    } else {
        seq!["-y"@, "add"@]
    }));
    v
}

/// How a CLI run that ended with exit code `code` (`None`: killed by a signal)
/// is reported: success on exit 0, else `"<what> failed (exit <code>)"` with
/// `-1` standing for no code.
pub open spec fn cli_outcome(what: Seq<char>, code: Option<i32>) -> Result<(), Seq<char>> {
    if code == Some(0i32) {
        Ok(())
    } else {
        Err(
            what + " failed (exit "@ + signed_decimal(
                match code {
                    Some(k) => k as int,
                    None => -1,
                },
            ) + ")"@,
        )
    }
}

/// The report of a CLI run (`what` names the action, e.g. `removing model`).
pub fn cli_result(what: &str, code: Option<i32>) -> (r: Result<(), String>)
    ensures
        match r {
            Ok(()) => cli_outcome(what@, code) == Ok::<(), Seq<char>>(()),
            Err(e) => cli_outcome(what@, code) == Err::<(), Seq<char>>(e@),
        },
{
    if code == Some(0i32) {
        Ok(())
    } else {
        let k: i64 = match code {
            Some(k) => k as i64,
            None => -1,
        };
        let mut m = owned(what);
        push_str(&mut m, " failed (exit ");
        push_signed(&mut m, k);
        push_str(&mut m, ")");
        Err(m)
    }
}

/// A timestamp's UTC calendar fields as `YYYY-MM-DD HH:MM`.
pub open spec fn stamp(year: int, month: int, day: int, hour: int, minute: int) -> Seq<char> {
    zero_padded(year, 4) + seq!['-'] + zero_padded(month, 2) + seq!['-'] + zero_padded(day, 2)
        + seq![' '] + zero_padded(hour, 2) + seq![':'] + zero_padded(minute, 2)
}

/// Formats broken-down UTC time (full year, month 1–12, day, hour, minute) as
/// `YYYY-MM-DD HH:MM`.
pub fn format_stamp(year: i64, month: i64, day: i64, hour: i64, minute: i64) -> (s: String)
    ensures
        s@ == stamp(year as int, month as int, day as int, hour as int, minute as int),
{
    let mut s = String::new();
    push_zero_padded(&mut s, year, 4);
    push_str(&mut s, "-");
    push_zero_padded(&mut s, month, 2);
    push_str(&mut s, "-");
    push_zero_padded(&mut s, day, 2);
    push_str(&mut s, " ");
    push_zero_padded(&mut s, hour, 2);
    push_str(&mut s, ":");
    push_zero_padded(&mut s, minute, 2);
    proof {
        reveal_strlit("-");
        reveal_strlit(" ");
        reveal_strlit(":");
    }
    assert(s@ =~= stamp(year as int, month as int, day as int, hour as int, minute as int));
    s
}

/// The fallback text for a timestamp that has no calendar form: its number.
pub fn format_epoch(epoch: i64) -> (s: String)
    ensures
        s@ == signed_decimal(epoch as int),
{
    let mut s = String::new();
    push_signed(&mut s, epoch);
    assert(s@ =~= signed_decimal(epoch as int));
    s
}

} // verus!

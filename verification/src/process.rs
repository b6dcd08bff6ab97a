//! The process of a container: its command, its environment, its user.
use vstd::prelude::*;
use vstd::string::*;

use crate::error::{opt_text, RunError, RunErrorView};
use crate::image::ImageConfig;
use crate::number::decimal;
use crate::options::{law_user_reads_back, user_value};
use crate::options::{SystemdMode, UserSpec};
use crate::text::{append_texts, copy_texts, ends_with, find_char, first_bytes, holds_text};
use crate::text::{byte_prefix, cuts_cleanly, first_index, opt_texts, texts};
use crate::text::{law_ascii_prefix, lemma_no_split, lemma_split_at};

verus! {

/// A list, or the empty one where there is none.
pub open spec fn or_none(list: Option<Seq<Seq<char>>>) -> Seq<Seq<char>> {
    match list {
        Some(l) => l,
        None => seq![],
    }
}

fn copy_or_none(list: &Option<Vec<String>>) -> (r: Vec<String>)
    ensures
        texts(r@) == or_none(opt_texts(*list)),
{
    match list {
        Some(l) => copy_texts(l),
        None => {
            let r: Vec<String> = Vec::new();
            assert(texts(r@) =~= seq![]);
            r
        },
    }
}

// ---------------------------------------------------------------------------------------
// The command

/// The command of the command line, or else the entrypoint and the command of the image.
pub open spec fn command_value(
    given: Seq<Seq<char>>,
    entrypoint: Option<Seq<Seq<char>>>,
    cmd: Option<Seq<Seq<char>>>,
) -> Result<Seq<Seq<char>>, RunErrorView> {
    if given.len() > 0 {
        Ok(given)
    } else if or_none(entrypoint).len() + or_none(cmd).len() > 0 {
        Ok(or_none(entrypoint) + or_none(cmd))
    } else {
        Err(RunErrorView::NoCommand)
    }
}

/// The command that a container is to run.
pub fn effective_command(given: &Vec<String>, config: &ImageConfig) -> (r: Result<
    Vec<String>,
    RunError,
>)
    ensures
        match r {
            Ok(args) => command_value(
                texts(given@),
                opt_texts(config.entrypoint),
                opt_texts(config.cmd),
            ) == Ok::<Seq<Seq<char>>, RunErrorView>(texts(args@)),
            Err(e) => command_value(
                texts(given@),
                opt_texts(config.entrypoint),
                opt_texts(config.cmd),
            ) == Err::<Seq<Seq<char>>, RunErrorView>(e@),
        },
{
    if given.len() > 0 {
        return Ok(copy_texts(given));
    }
    let args = append_texts(copy_or_none(&config.entrypoint), &copy_or_none(&config.cmd));
    assert(texts(args@).len() == args@.len());
    if args.len() == 0 {
        Err(RunError::NoCommand)
    } else {
        Ok(args)
    }
}

/// A program that is systemd, or starts it.
pub open spec fn is_systemd_program(program: Seq<char>) -> bool {
    ||| "systemd"@.is_suffix_of(program)
    ||| "/usr/sbin/init"@.is_suffix_of(program)
    ||| "/sbin/init"@.is_suffix_of(program)
    ||| "/usr/local/sbin/init"@.is_suffix_of(program)
}

/// A command whose program is systemd, or starts it.
pub open spec fn runs_systemd(args: Seq<Seq<char>>) -> bool {
    args.len() > 0 && is_systemd_program(args[0])
}

/// Whether a command starts systemd.
pub fn is_systemd_command(args: &[String]) -> (r: bool)
    ensures
        r == runs_systemd(texts(args@)),
{
    if args.len() == 0 {
        return false;
    }
    let program = args[0].as_str();
    assert(texts(args@)[0] == program@);
    ends_with(program, "systemd") || ends_with(program, "/usr/sbin/init") || ends_with(
        program,
        "/sbin/init",
    ) || ends_with(program, "/usr/local/sbin/init")
}

/// Whether a container is set up for systemd.
pub open spec fn systemd_wanted(mode: SystemdMode, args: Seq<Seq<char>>) -> bool {
    match mode {
        SystemdMode::Always => true,
        SystemdMode::Off => false,
        SystemdMode::Auto => runs_systemd(args),
    }
}

/// Whether a container is set up for systemd.
pub fn wants_systemd(mode: SystemdMode, args: &Vec<String>) -> (r: bool)
    ensures
        r == systemd_wanted(mode, texts(args@)),
{
    match mode {
        SystemdMode::Always => true,
        SystemdMode::Off => false,
        SystemdMode::Auto => is_systemd_command(args.as_slice()),
    }
}

// ---------------------------------------------------------------------------------------
// The init process

/// Where the init process may be installed; the first one is taken.
pub open spec fn init_places() -> Seq<Seq<char>> {
    seq![
        "/usr/libexec/catatonit/catatonit"@,
        "/usr/libexec/podman/catatonit"@,
        "/usr/local/libexec/podman/catatonit"@,
        "/usr/local/lib/podman/catatonit"@,
        "/usr/libexec/catatonit"@,
        "/usr/bin/catatonit"@,
    ]
}

/// The first of some places of which it is said that something is there.
pub open spec fn first_present(places: Seq<Seq<char>>, present: Seq<bool>) -> Option<Seq<char>>
    decreases places.len(),
{
    if places.len() == 0 || present.len() == 0 {
        None
    } else if present[0] {
        Some(places[0])
    } else {
        first_present(places.drop_first(), present.drop_first())
    }
}

/// Where the init process may be installed.
pub fn catatonit_paths() -> (r: Vec<String>)
    ensures
        texts(r@) == init_places(),
{
    let r: Vec<String> = vec![
        "/usr/libexec/catatonit/catatonit".to_owned(),
        "/usr/libexec/podman/catatonit".to_owned(),
        "/usr/local/libexec/podman/catatonit".to_owned(),
        "/usr/local/lib/podman/catatonit".to_owned(),
        "/usr/libexec/catatonit".to_owned(),
        "/usr/bin/catatonit".to_owned(),
    ];
    assert(texts(r@) =~= init_places());
    r
}

/// The init process to use. `present` says of each of [`catatonit_paths`] whether it exists; of
/// the places behind its end nothing is known to.
pub fn find_catatonit(present: &Vec<bool>) -> (r: Result<String, RunError>)
    ensures
        match r {
            Ok(path) => first_present(init_places(), present@) == Some(path@),
            Err(e) => first_present(init_places(), present@) is None && e@ == RunErrorView::NoInit,
        },
{
    let paths = catatonit_paths();
    let ghost all = init_places();
    let mut i: usize = 0;
    assert(all.skip(0) =~= all && present@.skip(0) =~= present@);
    while i < paths.len() && i < present.len()
        invariant
            texts(paths@) == all,
            all == init_places(),
            i <= paths@.len(),
            i <= present@.len(),
            first_present(all, present@) == first_present(
                all.skip(i as int),
                present@.skip(i as int),
            ),
        decreases paths@.len() - i,
    {
        assert(all[i as int] == paths@[i as int]@);
        if present[i] {
            return Ok(paths[i].clone());
        }
        assert(all.skip(i as int).drop_first() =~= all.skip(i + 1));
        assert(present@.skip(i as int).drop_first() =~= present@.skip(i + 1));
        i = i + 1;
    }
    Err(RunError::NoInit)
}

/// A command behind the init process.
pub open spec fn under_init(args: Seq<Seq<char>>) -> Seq<Seq<char>> {
    seq!["/dev/init"@, "--"@] + args
}

/// Puts a command behind the init process.
pub fn put_under_init(args: &Vec<String>) -> (r: Vec<String>)
    ensures
        texts(r@) == under_init(texts(args@)),
{
    let head: Vec<String> = vec!["/dev/init".to_owned(), "--".to_owned()];
    assert(texts(head@) =~= seq!["/dev/init"@, "--"@]);
    append_texts(head, args)
}

// ---------------------------------------------------------------------------------------
// The environment

/// The variable that an entry `KEY=VALUE` sets.
pub open spec fn env_key(entry: Seq<char>) -> Seq<char> {
    entry.take(first_index(entry, '='))
}

/// The entries that set other variables.
pub open spec fn without_keys(env: Seq<Seq<char>>, keys: Seq<Seq<char>>) -> Seq<Seq<char>>
    decreases env.len(),
{
    if env.len() == 0 {
        seq![]
    } else if keys.contains(env_key(env.last())) {
        without_keys(env.drop_last(), keys)
    } else {
        without_keys(env.drop_last(), keys).push(env.last())
    }
}

/// An environment after one more entry, which takes the place of those for its variable.
pub open spec fn with_entry(env: Seq<Seq<char>>, entry: Seq<char>) -> Seq<Seq<char>> {
    without_keys(env, seq![env_key(entry)]).push(entry)
}

/// An environment after some more entries.
pub open spec fn with_entries(env: Seq<Seq<char>>, entries: Seq<Seq<char>>) -> Seq<Seq<char>>
    decreases entries.len(),
{
    if entries.len() == 0 {
        env
    } else {
        with_entry(with_entries(env, entries.drop_last()), entries.last())
    }
}

/// What a container's environment starts from: what the image says, and what the runner adds.
pub open spec fn base_env(image: Option<Seq<Seq<char>>>, tty: bool) -> Seq<Seq<char>> {
    let start = match image {
        Some(env) => env,
        None => seq!["PATH=/usr/local/sbin:/usr/local/bin:/usr/sbin:/usr/bin:/sbin:/bin"@],
    };
    let marked = start.push("container=oci"@);
    if tty {
        marked.push("TERM=xterm"@)
    } else {
        marked
    }
}

/// The environment: the base, without what is to be unset, with what is to be set.
pub open spec fn env_value(
    image: Option<Seq<Seq<char>>>,
    tty: bool,
    unset: Seq<Seq<char>>,
    set: Seq<Seq<char>>,
) -> Seq<Seq<char>> {
    with_entries(without_keys(base_env(image, tty), unset), set)
}

fn key_of(entry: &str) -> (r: String)
    ensures
        r@ == env_key(entry@),
{
    match find_char(entry, '=') {
        Some(i) => entry.substring_char(0, i).to_owned(),
        None => {
            assert(entry@.take(entry@.len() as int) =~= entry@);
            entry.to_owned()
        },
    }
}

fn drop_keys(env: &Vec<String>, keys: &Vec<String>) -> (r: Vec<String>)
    ensures
        texts(r@) == without_keys(texts(env@), texts(keys@)),
{
    let ghost all = texts(env@);
    let mut r: Vec<String> = Vec::new();
    let mut i: usize = 0;
    assert(texts(r@) =~= without_keys(all.take(0), texts(keys@)));
    while i < env.len()
        invariant
            all == texts(env@),
            i <= env@.len(),
            texts(r@) == without_keys(all.take(i as int), texts(keys@)),
        decreases env@.len() - i,
    {
        assert(all.take(i + 1).drop_last() =~= all.take(i as int));
        assert(all.take(i + 1).last() == env@[i as int]@);
        if !holds_text(keys, key_of(env[i].as_str()).as_str()) {
            let ghost before = texts(r@);
            r.push(env[i].clone());
            assert(texts(r@) =~= before.push(env@[i as int]@));
        }
        i = i + 1;
    }
    assert(all.take(i as int) =~= all);
    r
}

/// The environment of a container.
pub fn effective_env(
    image: &Option<Vec<String>>,
    tty: bool,
    unset: &Vec<String>,
    set: &Vec<String>,
) -> (r: Vec<String>)
    ensures
        texts(r@) == env_value(opt_texts(*image), tty, texts(unset@), texts(set@)),
{
    let mut base: Vec<String> = match image {
        Some(env) => copy_texts(env),
        None => {
            let r: Vec<String> = vec![
                "PATH=/usr/local/sbin:/usr/local/bin:/usr/sbin:/usr/bin:/sbin:/bin".to_owned(),
            ];
            assert(texts(r@) =~= seq![
                "PATH=/usr/local/sbin:/usr/local/bin:/usr/sbin:/usr/bin:/sbin:/bin"@,
            ]);
            r
        },
    };
    let ghost start = texts(base@);
    base.push("container=oci".to_owned());
    if tty {
        base.push("TERM=xterm".to_owned());
    }
    assert(texts(base@) =~= base_env(opt_texts(*image), tty));
    let mut env = drop_keys(&base, unset);
    let ghost cleared = texts(env@);
    let ghost all = texts(set@);
    let mut i: usize = 0;
    assert(all.take(0) =~= seq![]);
    while i < set.len()
        invariant
            all == texts(set@),
            i <= set@.len(),
            texts(env@) == with_entries(cleared, all.take(i as int)),
        decreases set@.len() - i,
    {
        assert(all.take(i + 1).drop_last() =~= all.take(i as int));
        assert(all.take(i + 1).last() == set@[i as int]@);
        let keys: Vec<String> = vec![key_of(set[i].as_str())];
        assert(texts(keys@) =~= seq![env_key(set@[i as int]@)]);
        env = drop_keys(&env, &keys);
        let ghost before = texts(env@);
        env.push(set[i].clone());
        assert(texts(env@) =~= before.push(set@[i as int]@));
        i = i + 1;
    }
    assert(all.take(i as int) =~= all);
    env
}

/// Whether an environment sets a variable at most once.
pub open spec fn sets_at_most_once(env: Seq<Seq<char>>, key: Seq<char>) -> bool {
    forall|i: int, j: int|
        0 <= i < env.len() && 0 <= j < env.len() && env_key(#[trigger] env[i]) == key && env_key(
            #[trigger] env[j],
        ) == key ==> i == j
}

/// What `without_keys` keeps: the entries for other variables, all of them, and no other.
pub proof fn lemma_without_keys(env: Seq<Seq<char>>, keys: Seq<Seq<char>>)
    ensures
        forall|e: Seq<char>| #[trigger]
            without_keys(env, keys).contains(e) <==> env.contains(e) && !keys.contains(env_key(e)),
        forall|k: Seq<char>| #[trigger]
            sets_at_most_once(env, k) ==> sets_at_most_once(without_keys(env, keys), k),
    decreases env.len(),
{
    if env.len() > 0 {
        let front = env.drop_last();
        let last = env.last();
        lemma_without_keys(front, keys);
        let kept = without_keys(front, keys);
        let r = without_keys(env, keys);
        assert(env =~= front.push(last));
        assert(env[env.len() - 1] == last);
        assert forall|e: Seq<char>| #[trigger] env.contains(e) <==> front.contains(e) || e
            == last by {
            if front.contains(e) {
                let k = choose|k: int| 0 <= k < front.len() && front[k] == e;
                assert(env[k] == e);
            }
            if env.contains(e) && e != last {
                let k = choose|k: int| 0 <= k < env.len() && env[k] == e;
                assert(front[k] == e);
            }
        }
        if !keys.contains(env_key(last)) {
            assert(r =~= kept.push(last));
            assert(r[kept.len() as int] == last);
            assert forall|e: Seq<char>| #[trigger] r.contains(e) <==> kept.contains(e) || e
                == last by {
                if kept.contains(e) {
                    let k = choose|k: int| 0 <= k < kept.len() && kept[k] == e;
                    assert(r[k] == e);
                }
                if r.contains(e) && e != last {
                    let k = choose|k: int| 0 <= k < r.len() && r[k] == e;
                    assert(kept[k] == e);
                }
            }
        }
        assert forall|e: Seq<char>| #[trigger] r.contains(e) <==> env.contains(e) && !keys.contains(
            env_key(e),
        ) by {
            assert(env.contains(e) <==> front.contains(e) || e == last);
            assert(kept.contains(e) <==> front.contains(e) && !keys.contains(env_key(e)));
        }
        assert forall|k: Seq<char>| #[trigger] sets_at_most_once(env, k) implies sets_at_most_once(
            r,
            k,
        ) by {
            assert(sets_at_most_once(front, k)) by {
                assert forall|i: int, j: int|
                    0 <= i < front.len() && 0 <= j < front.len() && env_key(#[trigger] front[i])
                        == k && env_key(#[trigger] front[j]) == k implies i == j by {
                    assert(env[i] == front[i] && env[j] == front[j]);
                }
            }
            assert(sets_at_most_once(kept, k));
            if !keys.contains(env_key(last)) {
                assert forall|i: int, j: int|
                    0 <= i < r.len() && 0 <= j < r.len() && env_key(#[trigger] r[i]) == k
                        && env_key(#[trigger] r[j]) == k implies i == j by {
                    if env_key(last) == k {
                        assert forall|m: int| 0 <= m < kept.len() implies env_key(
                            #[trigger] kept[m],
                        ) != k by {
                            assert(kept.contains(kept[m]));
                            let n = choose|n: int| 0 <= n < front.len() && front[n] == kept[m];
                            assert(env[n] == kept[m]);
                        }
                    }
                    if i < kept.len() {
                        assert(r[i] == kept[i]);
                    }
                    if j < kept.len() {
                        assert(r[j] == kept[j]);
                    }
                }
            }
        }
    }
}

/// One more entry: it is there, alone for its variable, and the others stay as they were.
proof fn lemma_with_entry(env: Seq<Seq<char>>, entry: Seq<char>)
    ensures
        with_entry(env, entry).contains(entry),
        sets_at_most_once(with_entry(env, entry), env_key(entry)),
        forall|e: Seq<char>|
            env_key(e) != env_key(entry) ==> (#[trigger] with_entry(env, entry).contains(e)
                <==> env.contains(e)),
        forall|k: Seq<char>|
            k != env_key(entry) && #[trigger] sets_at_most_once(env, k) ==> sets_at_most_once(
                with_entry(env, entry),
                k,
            ),
{
    let keys = seq![env_key(entry)];
    let kept = without_keys(env, keys);
    let r = with_entry(env, entry);
    lemma_without_keys(env, keys);
    assert(keys[0] == env_key(entry));
    assert(r[kept.len() as int] == entry);
    assert forall|i: int| 0 <= i < kept.len() implies env_key(#[trigger] kept[i]) != env_key(
        entry,
    ) by {
        assert(kept.contains(kept[i]));
        if env_key(kept[i]) == env_key(entry) {
            assert(keys.contains(env_key(kept[i])));
        }
    }
    assert forall|i: int, j: int|
        0 <= i < r.len() && 0 <= j < r.len() && env_key(#[trigger] r[i]) == env_key(entry)
            && env_key(#[trigger] r[j]) == env_key(entry) implies i == j by {
        if i < kept.len() {
            assert(r[i] == kept[i]);
        }
        if j < kept.len() {
            assert(r[j] == kept[j]);
        }
    }
    assert forall|e: Seq<char>| env_key(e) != env_key(entry) implies (#[trigger] r.contains(e)
        <==> env.contains(e)) by {
        if r.contains(e) {
            let k = choose|k: int| 0 <= k < r.len() && r[k] == e;
            assert(kept[k] == e);
            assert(kept.contains(e));
        }
        if env.contains(e) {
            assert(kept.contains(e));
            let k = choose|k: int| 0 <= k < kept.len() && kept[k] == e;
            assert(r[k] == e);
        }
    }
    assert forall|k: Seq<char>|
        k != env_key(entry) && #[trigger] sets_at_most_once(env, k) implies sets_at_most_once(
        r,
        k,
    ) by {
        assert(sets_at_most_once(kept, k));
        assert forall|i: int, j: int|
            0 <= i < r.len() && 0 <= j < r.len() && env_key(#[trigger] r[i]) == k && env_key(
                #[trigger] r[j],
            ) == k implies i == j by {
            assert(r[i] == kept[i] && r[j] == kept[j]);
        }
    }
}

proof fn lemma_last_entry_wins(env: Seq<Seq<char>>, entries: Seq<Seq<char>>, i: int)
    requires
        0 <= i < entries.len(),
        forall|j: int|
            i < j < entries.len() ==> env_key(#[trigger] entries[j]) != env_key(entries[i]),
    ensures
        with_entries(env, entries).contains(entries[i]),
        sets_at_most_once(with_entries(env, entries), env_key(entries[i])),
    decreases entries.len(),
{
    let front = entries.drop_last();
    lemma_with_entry(with_entries(env, front), entries.last());
    assert(entries.last() == entries[entries.len() - 1]);
    if i < entries.len() - 1 {
        assert(front[i] == entries[i]);
        assert forall|j: int| i < j < front.len() implies env_key(#[trigger] front[j]) != env_key(
            front[i],
        ) by {
            assert(front[j] == entries[j]);
        }
        lemma_last_entry_wins(env, front, i);
    }
}

proof fn lemma_other_entries_stay(env: Seq<Seq<char>>, entries: Seq<Seq<char>>, e: Seq<char>)
    requires
        forall|j: int| 0 <= j < entries.len() ==> env_key(#[trigger] entries[j]) != env_key(e),
    ensures
        with_entries(env, entries).contains(e) <==> env.contains(e),
    decreases entries.len(),
{
    if entries.len() > 0 {
        let front = entries.drop_last();
        lemma_with_entry(with_entries(env, front), entries.last());
        assert(entries.last() == entries[entries.len() - 1]);
        assert forall|j: int| 0 <= j < front.len() implies env_key(#[trigger] front[j]) != env_key(
            e,
        ) by {
            assert(front[j] == entries[j]);
        }
        lemma_other_entries_stay(env, front, e);
    }
}

/// Law: of the entries that the user sets for one variable the last one counts, and it is then
/// the only entry for that variable, whatever the image says and whatever is unset.
pub proof fn law_last_setting_counts(
    image: Option<Seq<Seq<char>>>,
    tty: bool,
    unset: Seq<Seq<char>>,
    set: Seq<Seq<char>>,
    i: int,
)
    requires
        0 <= i < set.len(),
        forall|j: int| i < j < set.len() ==> env_key(#[trigger] set[j]) != env_key(set[i]),
    ensures
        env_value(image, tty, unset, set).contains(set[i]),
        sets_at_most_once(env_value(image, tty, unset, set), env_key(set[i])),
{
    lemma_last_entry_wins(without_keys(base_env(image, tty), unset), set, i);
}

/// Law: of a variable that the user does not set, the entries of the base stay, all of them and
/// no other, unless the user unsets it: then none is left.
pub proof fn law_other_variables_stay(
    image: Option<Seq<Seq<char>>>,
    tty: bool,
    unset: Seq<Seq<char>>,
    set: Seq<Seq<char>>,
    e: Seq<char>,
)
    requires
        forall|j: int| 0 <= j < set.len() ==> env_key(#[trigger] set[j]) != env_key(e),
    ensures
        env_value(image, tty, unset, set).contains(e) <==> base_env(image, tty).contains(e)
            && !unset.contains(env_key(e)),
{
    lemma_without_keys(base_env(image, tty), unset);
    lemma_other_entries_stay(without_keys(base_env(image, tty), unset), set, e);
}

// ---------------------------------------------------------------------------------------
// Directory, user, host name

/// The directory in which the process starts.
pub open spec fn cwd_value(given: Option<Seq<char>>, image: Option<Seq<char>>) -> Seq<char> {
    match (given, image) {
        (Some(dir), _) => dir,
        (None, Some(dir)) => dir,
        (None, None) => "/"@,
    }
}

/// The directory in which the process starts.
pub fn effective_cwd(given: &Option<String>, image: &Option<String>) -> (r: String)
    ensures
        r@ == cwd_value(opt_text(*given), opt_text(*image)),
{
    match (given, image) {
        (Some(dir), _) => dir.clone(),
        (None, Some(dir)) => dir.clone(),
        (None, None) => "/".to_owned(),
    }
}

/// The user of the process. An image whose user is not given in numbers gets root.
pub open spec fn effective_user_value(given: Option<UserSpec>, image: Option<Seq<char>>) -> UserSpec {
    match (given, image) {
        (Some(user), _) => user,
        (None, Some(s)) => match user_value(s) {
            Ok(user) => user,
            Err(_) => UserSpec { uid: 0, gid: 0 },
        },
        (None, None) => UserSpec { uid: 0, gid: 0 },
    }
}

/// The user of the process.
pub fn effective_user(given: &Option<UserSpec>, image: &Option<String>) -> (r: UserSpec)
    ensures
        r == effective_user_value(*given, opt_text(*image)),
{
    match (given, image) {
        (Some(user), _) => *user,
        (None, Some(s)) => match <UserSpec as std::str::FromStr>::from_str(s.as_str()) {
            Ok(user) => user,
            Err(_) => UserSpec { uid: 0, gid: 0 },
        },
        (None, None) => UserSpec { uid: 0, gid: 0 },
    }
}

/// The host name of a container: the given one, or the first bytes of its identifier.
pub open spec fn hostname_value(given: Option<Seq<char>>, container_id: Seq<char>) -> Seq<char> {
    match given {
        Some(name) => name,
        None => byte_prefix(container_id, 12),
    }
}

/// The host name of a container.
pub fn effective_hostname(given: &Option<String>, container_id: &str) -> (r: String)
    requires
        given is None ==> cuts_cleanly(container_id@, 12),
    ensures
        r@ == hostname_value(opt_text(*given), container_id@),
{
    match given {
        Some(name) => name.clone(),
        None => first_bytes(container_id, 12),
    }
}

// ---------------------------------------------------------------------------------------
// Laws of the command, the environment and the rest

/// Law: a command on the command line is run as it stands, whatever the image says.
pub proof fn law_a_given_command_is_run(
    given: Seq<Seq<char>>,
    entrypoint: Option<Seq<Seq<char>>>,
    cmd: Option<Seq<Seq<char>>>,
)
    requires
        given.len() > 0,
    ensures
        command_value(given, entrypoint, cmd) == Ok::<Seq<Seq<char>>, RunErrorView>(given),
{
}

/// Law: without a command on the command line, the image's is run: the entrypoint, if it has one,
/// and behind it the cmd, if it has one, and nothing else. It is refused exactly where the image
/// has neither.
pub proof fn law_the_command_of_the_image_is_run(entrypoint: Seq<Seq<char>>, cmd: Seq<Seq<char>>)
    ensures
        cmd.len() > 0 ==> command_value(seq![], None, Some(cmd)) == Ok::<
            Seq<Seq<char>>,
            RunErrorView,
        >(cmd),
        entrypoint.len() > 0 ==> command_value(seq![], Some(entrypoint), None) == Ok::<
            Seq<Seq<char>>,
            RunErrorView,
        >(entrypoint),
        entrypoint.len() > 0 || cmd.len() > 0 ==> (command_value(
            seq![],
            Some(entrypoint),
            Some(cmd),
        ) matches Ok(args) && args.len() == entrypoint.len() + cmd.len()
            && entrypoint.is_prefix_of(args) && cmd.is_suffix_of(args)),
        command_value(seq![], None, None) == Err::<Seq<Seq<char>>, RunErrorView>(
            RunErrorView::NoCommand,
        ),
        entrypoint.len() == 0 && cmd.len() == 0 ==> {
            &&& command_value(seq![], Some(entrypoint), Some(cmd)) is Err
            &&& command_value(seq![], Some(entrypoint), None) is Err
            &&& command_value(seq![], None, Some(cmd)) is Err
        },
{
    let none = Seq::<Seq<char>>::empty();
    assert(none + cmd =~= cmd);
    assert(entrypoint + none =~= entrypoint);
    let args = entrypoint + cmd;
    assert(entrypoint =~= args.subrange(0, entrypoint.len() as int));
    assert(cmd =~= args.subrange(entrypoint.len() as int, args.len() as int));
}

/// Law: a container is set up for systemd where that is asked for, and never where it is refused;
/// otherwise where its program ends in `systemd` or in `/sbin/init`.
pub proof fn law_systemd_is_noticed(mode: SystemdMode, args: Seq<Seq<char>>)
    ensures
        systemd_wanted(mode, args) <==> match mode {
            SystemdMode::Always => true,
            SystemdMode::Off => false,
            SystemdMode::Auto => args.len() > 0 && ("systemd"@.is_suffix_of(args[0])
                || "/sbin/init"@.is_suffix_of(args[0])),
        },
{
    reveal_strlit("/sbin/init");
    reveal_strlit("/usr/sbin/init");
    reveal_strlit("/usr/local/sbin/init");
    if args.len() > 0 {
        let p = args[0];
        let n = p.len() as int;
        if "/usr/sbin/init"@.is_suffix_of(p) {
            let t = p.subrange(n - 14, n);
            assert(p.subrange(n - 10, n) =~= t.subrange(4, 14));
            assert("/sbin/init"@ =~= "/usr/sbin/init"@.subrange(4, 14));
        }
        if "/usr/local/sbin/init"@.is_suffix_of(p) {
            let t = p.subrange(n - 20, n);
            assert(p.subrange(n - 10, n) =~= t.subrange(10, 20));
            assert("/sbin/init"@ =~= "/usr/local/sbin/init"@.subrange(10, 20));
        }
    }
}

/// Law: the init process is the first of these six places at which one is said to be, and there
/// is none where none is. `i` is its place, or the number of places that were looked at.
pub proof fn law_the_first_init_process_is_used(present: Seq<bool>, i: int)
    requires
        0 <= i <= 6,
        i <= present.len(),
        forall|j: int| 0 <= j < i ==> !#[trigger] present[j],
        i < 6 && i < present.len() ==> present[i],
    ensures
        first_present(init_places(), present) == if i == 6 || i == present.len() {
            None
        } else {
            Some(
                seq![
                    "/usr/libexec/catatonit/catatonit"@,
                    "/usr/libexec/podman/catatonit"@,
                    "/usr/local/libexec/podman/catatonit"@,
                    "/usr/local/lib/podman/catatonit"@,
                    "/usr/libexec/catatonit"@,
                    "/usr/bin/catatonit"@,
                ][i],
            )
        },
{
    lemma_first_present(init_places(), present, i);
}

proof fn lemma_first_present(places: Seq<Seq<char>>, present: Seq<bool>, i: int)
    requires
        0 <= i <= places.len(),
        i <= present.len(),
        forall|j: int| 0 <= j < i ==> !#[trigger] present[j],
        i < places.len() && i < present.len() ==> present[i],
    ensures
        first_present(places, present) == if i == places.len() || i == present.len() {
            None
        } else {
            Some(places[i])
        },
    decreases i,
{
    if i > 0 {
        let rest = present.drop_first();
        assert(!present[0]);
        assert forall|j: int| 0 <= j < i - 1 implies !#[trigger] rest[j] by {
            assert(rest[j] == present[j + 1]);
        }
        lemma_first_present(places.drop_first(), rest, i - 1);
    }
}

/// Law: a command that runs under the init process keeps all its words, behind two others.
pub proof fn law_init_runs_the_command(args: Seq<Seq<char>>)
    ensures
        under_init(args).len() == args.len() + 2,
        under_init(args)[0] == "/dev/init"@,
        under_init(args)[1] == "--"@,
        forall|i: int| 0 <= i < args.len() ==> under_init(args)[i + 2] == #[trigger] args[i],
{
}

/// Law: the variable of an entry is what stands before its first equals sign, and the whole entry
/// where there is none.
pub proof fn law_variable_of_an_entry(key: Seq<char>, value: Seq<char>)
    requires
        !key.contains('='),
    ensures
        env_key(key + seq!['='] + value) == key,
        env_key(key) == key,
{
    lemma_split_at(key, '=', value);
    let s = key + seq!['='] + value;
    assert(s.take(key.len() as int) =~= key);
    lemma_no_split(key, '=');
    assert(key.take(key.len() as int) =~= key);
}

/// Law: where the user changes nothing, the environment is that of the image, or a path to the
/// usual programs where the image has none, with a mark that this is a container and, on a
/// terminal, its kind.
pub proof fn law_the_environment_of_the_image(image: Option<Seq<Seq<char>>>, tty: bool)
    ensures
        env_value(image, tty, seq![], seq![]) == (match image {
            Some(env) => env,
            None => seq!["PATH=/usr/local/sbin:/usr/local/bin:/usr/sbin:/usr/bin:/sbin:/bin"@],
        }) + seq!["container=oci"@] + if tty {
            seq!["TERM=xterm"@]
        } else {
            seq![]
        },
{
    let base = base_env(image, tty);
    lemma_without_nothing(base);
    assert(env_value(image, tty, seq![], seq![]) =~= base);
}

proof fn lemma_without_nothing(env: Seq<Seq<char>>)
    ensures
        without_keys(env, seq![]) == env,
    decreases env.len(),
{
    if env.len() > 0 {
        lemma_without_nothing(env.drop_last());
        assert(env =~= env.drop_last().push(env.last()));
    }
}

proof fn lemma_without_keys_is_filter(env: Seq<Seq<char>>, keys: Seq<Seq<char>>)
    ensures
        without_keys(env, keys) == env.filter(|e: Seq<char>| !keys.contains(env_key(e))),
    decreases env.len(),
{
    let f = |e: Seq<char>| !keys.contains(env_key(e));
    reveal(Seq::filter);
    if env.len() > 0 {
        lemma_without_keys_is_filter(env.drop_last(), keys);
    } else {
        assert(env.filter(f) =~= seq![]);
    }
}

/// Law: to unset variables takes their entries out of the environment and leaves the others in
/// their order.
pub proof fn law_unsetting_takes_out(
    image: Option<Seq<Seq<char>>>,
    tty: bool,
    unset: Seq<Seq<char>>,
)
    ensures
        env_value(image, tty, unset, seq![]) == env_value(image, tty, seq![], seq![]).filter(
            |e: Seq<char>| !unset.contains(env_key(e)),
        ),
{
    lemma_without_nothing(base_env(image, tty));
    lemma_without_keys_is_filter(base_env(image, tty), unset);
}

/// Law: to set one more variable takes the entries for it out of the environment, leaves the
/// others in their order, and puts the new entry behind them.
pub proof fn law_setting_one_more_variable(
    image: Option<Seq<Seq<char>>>,
    tty: bool,
    unset: Seq<Seq<char>>,
    set: Seq<Seq<char>>,
    entry: Seq<char>,
)
    ensures
        env_value(image, tty, unset, set.push(entry)) == env_value(image, tty, unset, set).filter(
            |e: Seq<char>| env_key(e) != env_key(entry),
        ).push(entry),
{
    let before = env_value(image, tty, unset, set);
    let keys = seq![env_key(entry)];
    assert(set.push(entry).drop_last() =~= set);
    lemma_without_keys_is_filter(before, keys);
    let f = |e: Seq<char>| !keys.contains(env_key(e));
    let g = |e: Seq<char>| env_key(e) != env_key(entry);
    assert forall|e: Seq<char>| #[trigger] f(e) == g(e) by {
        assert(keys[0] == env_key(entry));
        assert(keys.contains(env_key(e)) <==> env_key(e) == env_key(entry));
    }
    assert(f =~= g);
}

/// Law: the directory, the user and the host name are those that the user gives, and else those
/// of the image: the root directory, root, and the start of the container's name where it has
/// none.
pub proof fn law_what_the_user_gives_counts(
    dir: Seq<char>,
    image_dir: Option<Seq<char>>,
    user: UserSpec,
    image_user: Option<Seq<char>>,
    name: Seq<char>,
    container_id: Seq<char>,
)
    ensures
        cwd_value(Some(dir), image_dir) == dir,
        cwd_value(None, Some(dir)) == dir,
        cwd_value(None, None) == seq!['/'],
        effective_user_value(Some(user), image_user) == user,
        effective_user_value(
            None,
            Some(decimal(user.uid as nat) + seq![':'] + decimal(user.gid as nat)),
        ) == user,
        effective_user_value(None, None) == (UserSpec { uid: 0, gid: 0 }),
        hostname_value(Some(name), container_id) == name,
        (forall|i: int| 0 <= i < container_id.len() ==> #[trigger] container_id[i] <= '\u{7f}')
            ==> hostname_value(None, container_id) == container_id.take(
            if container_id.len() <= 12 {
                container_id.len() as int
            } else {
                12
            },
        ),
{
    reveal_strlit("/");
    assert("/"@ =~= seq!['/']);
    law_user_reads_back(user);
    if forall|i: int| 0 <= i < container_id.len() ==> #[trigger] container_id[i] <= '\u{7f}' {
        law_ascii_prefix(container_id, 12);
    }
}

/// Law: an image whose user reads as a number gets that user, and one whose user does not gets
/// root.
pub proof fn law_the_user_of_the_image(s: Seq<char>)
    ensures
        match user_value(s) {
            Ok(user) => effective_user_value(None, Some(s)) == user,
            Err(_) => effective_user_value(None, Some(s)) == (UserSpec { uid: 0, gid: 0 }),
        },
{
}

} // verus!

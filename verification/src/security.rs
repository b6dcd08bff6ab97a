//! The security options of a container: seccomp, SELinux, privileges.
use vstd::prelude::*;
use vstd::string::*;

use crate::error::{opt_text, seen, RunError, RunErrorView};
use crate::options::{SeccompPolicy, SecurityOpt, SecurityView};
use crate::text::same_text;
use crate::text::{texts, views};

verus! {

/// Where a seccomp profile is found.
#[derive(Debug)]
pub enum SeccompSource {
    /// The profile itself.
    Inline(String),
    /// A file that holds it.
    File(String),
}

/// The model of a [`SeccompSource`].
pub enum SeccompSourceView {
    Inline(Seq<char>),
    File(Seq<char>),
}

impl View for SeccompSource {
    type V = SeccompSourceView;

    open spec fn view(&self) -> SeccompSourceView {
        match *self {
            SeccompSource::Inline(s) => SeccompSourceView::Inline(s@),
            SeccompSource::File(s) => SeccompSourceView::File(s@),
        }
    }
}

/// An optional source by its model.
pub open spec fn opt_source(o: Option<SeccompSource>) -> Option<SeccompSourceView> {
    match o {
        Some(s) => Some(s@),
        None => None,
    }
}

/// What the security options of a container amount to.
#[derive(Debug)]
pub struct SecuritySettings {
    /// The seccomp profile, if there is to be one.
    pub seccomp: Option<SeccompSource>,
    pub no_new_privileges: bool,
    pub selinux_disabled: bool,
    /// The container is to see the SELinux file system.
    pub selinux_nested: bool,
    /// What the labels of the container are made from.
    pub label_opts: Vec<String>,
}

/// The model of [`SecuritySettings`].
#[verifier::ext_equal]
pub struct SecuritySettingsView {
    pub seccomp: Option<SeccompSourceView>,
    pub no_new_privileges: bool,
    pub selinux_disabled: bool,
    pub selinux_nested: bool,
    pub label_opts: Seq<Seq<char>>,
}

impl View for SecuritySettings {
    type V = SecuritySettingsView;

    open spec fn view(&self) -> SecuritySettingsView {
        SecuritySettingsView {
            seccomp: opt_source(self.seccomp),
            no_new_privileges: self.no_new_privileges,
            selinux_disabled: self.selinux_disabled,
            selinux_nested: self.selinux_nested,
            label_opts: texts(self.label_opts@),
        }
    }
}

/// What holds before any security option: a profile, from the image where the policy says so
/// (`label` is what the image brings), else from a file.
pub open spec fn initial_security(
    policy: SeccompPolicy,
    label: Option<Seq<char>>,
    default_profile: Seq<char>,
    privileged: bool,
) -> Result<SecuritySettingsView, RunErrorView> {
    let seccomp = match (policy, label) {
        (SeccompPolicy::Default, _) => Some(SeccompSourceView::File(default_profile)),
        (SeccompPolicy::Image, Some(json)) => Some(SeccompSourceView::Inline(json)),
        (SeccompPolicy::Image, None) => None,
    };
    match seccomp {
        None => Err(RunErrorView::NoSeccompProfile),
        Some(source) => Ok(
            SecuritySettingsView {
                seccomp: Some(source),
                no_new_privileges: !privileged,
                selinux_disabled: false,
                selinux_nested: false,
                label_opts: seq![],
            },
        ),
    }
}

/// One security option.
pub open spec fn after_option(s: SecuritySettingsView, opt: SecurityView) -> Result<
    SecuritySettingsView,
    RunErrorView,
> {
    if opt.key == "no-new-privileges"@ {
        Ok(SecuritySettingsView { no_new_privileges: !opt.is_false(), ..s })
    } else if opt.key == "seccomp"@ {
        match opt.value {
            None => Ok(s),
            Some(v) => if v == "unconfined"@ {
                Ok(SecuritySettingsView { seccomp: None, ..s })
            } else {
                Ok(SecuritySettingsView { seccomp: Some(SeccompSourceView::File(v)), ..s })
            },
        }
    } else if opt.key == "label"@ {
        match opt.value {
            None => Ok(s),
            Some(v) => if v == "disable"@ {
                Ok(SecuritySettingsView { selinux_disabled: true, ..s })
            } else if v == "nested"@ {
                Ok(SecuritySettingsView { selinux_nested: true, ..s })
            } else {
                Ok(SecuritySettingsView { label_opts: s.label_opts.push(v), ..s })
            },
        }
    } else {
        Err(RunErrorView::UnsupportedSecurityOpt(opt.key))
    }
}

/// The security options in their order; the first one that means nothing is refused.
pub open spec fn after_options(s: SecuritySettingsView, opts: Seq<SecurityView>) -> Result<
    SecuritySettingsView,
    RunErrorView,
>
    decreases opts.len(),
{
    if opts.len() == 0 {
        Ok(s)
    } else {
        match after_options(s, opts.drop_last()) {
            Err(e) => Err(e),
            Ok(t) => after_option(t, opts.last()),
        }
    }
}

/// What the security options amount to. A privileged container has neither seccomp nor
/// SELinux, whatever the options say.
pub open spec fn security_settings_value(
    policy: SeccompPolicy,
    label: Option<Seq<char>>,
    default_profile: Seq<char>,
    privileged: bool,
    opts: Seq<SecurityView>,
) -> Result<SecuritySettingsView, RunErrorView> {
    match initial_security(policy, label, default_profile, privileged) {
        Err(e) => Err(e),
        Ok(s) => match after_options(s, opts) {
            Err(e) => Err(e),
            Ok(t) => if privileged {
                Ok(SecuritySettingsView { seccomp: None, selinux_disabled: true, ..t })
            } else {
                Ok(t)
            },
        },
    }
}

proof fn lemma_stays_refused(s: SecuritySettingsView, opts: Seq<SecurityView>, i: int)
    requires
        0 <= i <= opts.len(),
        after_options(s, opts.take(i)) is Err,
    ensures
        after_options(s, opts) == after_options(s, opts.take(i)),
    decreases opts.len(),
{
    if i < opts.len() {
        assert(opts.drop_last().take(i) =~= opts.take(i));
        lemma_stays_refused(s, opts.drop_last(), i);
    } else {
        assert(opts.take(i) =~= opts);
    }
}

fn apply_option(s: SecuritySettings, opt: &SecurityOpt) -> (r: Result<SecuritySettings, RunError>)
    ensures
        seen(r) == after_option(s@, opt@),
{
    let mut t = s;
    let key = opt.key.as_str();
    if same_text(key, "no-new-privileges") {
        t.no_new_privileges = !opt.is_false();
        return Ok(t);
    }
    if same_text(key, "seccomp") {
        if let Some(v) = &opt.value {
            if same_text(v.as_str(), "unconfined") {
                t.seccomp = None;
            } else {
                t.seccomp = Some(SeccompSource::File(v.clone()));
            }
        }
        return Ok(t);
    }
    if same_text(key, "label") {
        if let Some(v) = &opt.value {
            if same_text(v.as_str(), "disable") {
                t.selinux_disabled = true;
            } else if same_text(v.as_str(), "nested") {
                t.selinux_nested = true;
            } else {
                let ghost before = texts(t.label_opts@);
                t.label_opts.push(v.clone());
                assert(texts(t.label_opts@) =~= before.push(v@));
            }
        }
        return Ok(t);
    }
    Err(RunError::UnsupportedSecurityOpt(opt.key.clone()))
}

/// What the security options of a container amount to. `label` is the profile that the image
/// brings, `default_profile` the file that holds the profile of the host.
pub fn security_settings(
    policy: SeccompPolicy,
    label: Option<String>,
    default_profile: &str,
    privileged: bool,
    opts: &Vec<SecurityOpt>,
) -> (r: Result<SecuritySettings, RunError>)
    ensures
        seen(r) == security_settings_value(
            policy,
            opt_text(label),
            default_profile@,
            privileged,
            views(opts@),
        ),
{
    let source = match (policy, label) {
        (SeccompPolicy::Default, _) => SeccompSource::File(default_profile.to_owned()),
        (SeccompPolicy::Image, Some(json)) => SeccompSource::Inline(json),
        (SeccompPolicy::Image, None) => {
            return Err(RunError::NoSeccompProfile);
        },
    };
    let mut s = SecuritySettings {
        seccomp: Some(source),
        no_new_privileges: !privileged,
        selinux_disabled: false,
        selinux_nested: false,
        label_opts: Vec::new(),
    };
    let ghost start = s@;
    let ghost all = views(opts@);
    assert(start.label_opts =~= seq![]);
    assert(initial_security(policy, opt_text(label), default_profile@, privileged) == Ok::<
        SecuritySettingsView,
        RunErrorView,
    >(start));
    let mut i: usize = 0;
    assert(all.take(0) =~= seq![]);
    while i < opts.len()
        invariant
            all == views(opts@),
            i <= opts@.len(),
            after_options(start, all.take(i as int)) == Ok::<SecuritySettingsView, RunErrorView>(
                s@,
            ),
            initial_security(policy, opt_text(label), default_profile@, privileged) == Ok::<
                SecuritySettingsView,
                RunErrorView,
            >(start),
        decreases opts@.len() - i,
    {
        assert(all.take(i + 1).drop_last() =~= all.take(i as int));
        assert(all.take(i + 1).last() == opts@[i as int]@);
        match apply_option(s, &opts[i]) {
            Ok(t) => {
                s = t;
            },
            Err(e) => {
                proof {
                    lemma_stays_refused(start, all, i + 1);
                }
                return Err(e);
            },
        }
        i = i + 1;
    }
    assert(all.take(i as int) =~= all);
    if privileged {
        s.seccomp = None;
        s.selinux_disabled = true;
    }
    Ok(s)
}

// ---------------------------------------------------------------------------------------
// Laws

/// Law: a privileged container has neither seccomp nor SELinux, whatever the options say.
pub proof fn law_privileged_is_unconfined(
    policy: SeccompPolicy,
    label: Option<Seq<char>>,
    default_profile: Seq<char>,
    opts: Seq<SecurityView>,
)
    ensures
        security_settings_value(policy, label, default_profile, true, opts) matches Ok(s) ==> {
            &&& s.seccomp is None
            &&& s.selinux_disabled
        },
{
}

/// Whether an option has a key that means something.
pub open spec fn is_known_option(opt: SecurityView) -> bool {
    opt.key == "no-new-privileges"@ || opt.key == "seccomp"@ || opt.key == "label"@
}

proof fn lemma_accepted_options(s: SecuritySettingsView, opts: Seq<SecurityView>)
    ensures
        after_options(s, opts) is Ok <==> (forall|i: int|
            0 <= i < opts.len() ==> is_known_option(#[trigger] opts[i])),
    decreases opts.len(),
{
    if opts.len() > 0 {
        let front = opts.drop_last();
        lemma_accepted_options(s, front);
        assert(opts.last() == opts[opts.len() - 1]);
        if forall|i: int| 0 <= i < opts.len() ==> is_known_option(#[trigger] opts[i]) {
            assert forall|i: int| 0 <= i < front.len() implies is_known_option(
                #[trigger] front[i],
            ) by {
                assert(front[i] == opts[i]);
            }
        } else {
            let k = choose|k: int| 0 <= k < opts.len() && !is_known_option(#[trigger] opts[k]);
            if k < front.len() {
                assert(front[k] == opts[k]);
            }
        }
    }
}

/// Law: the options are accepted exactly where each of them has a key that means something, and
/// the image brings a profile if it is to.
pub proof fn law_only_unknown_options_are_refused(
    policy: SeccompPolicy,
    label: Option<Seq<char>>,
    default_profile: Seq<char>,
    privileged: bool,
    opts: Seq<SecurityView>,
)
    ensures
        security_settings_value(policy, label, default_profile, privileged, opts) is Ok <==> {
            &&& policy == SeccompPolicy::Image ==> label is Some
            &&& forall|i: int| 0 <= i < opts.len() ==> is_known_option(#[trigger] opts[i])
        },
{
    if let Ok(s) = initial_security(policy, label, default_profile, privileged) {
        lemma_accepted_options(s, opts);
    }
}

proof fn lemma_last_privilege_option(s: SecuritySettingsView, opts: Seq<SecurityView>, i: int)
    requires
        -1 <= i < opts.len(),
        i >= 0 ==> opts[i].key == "no-new-privileges"@,
        forall|j: int| i < j < opts.len() ==> (#[trigger] opts[j]).key != "no-new-privileges"@,
    ensures
        after_options(s, opts) matches Ok(t) ==> t.no_new_privileges == if i < 0 {
            s.no_new_privileges
        } else {
            !opts[i].is_false()
        },
    decreases opts.len(),
{
    if opts.len() > 0 {
        let front = opts.drop_last();
        assert(opts.last() == opts[opts.len() - 1]);
        if i < opts.len() - 1 {
            assert(i >= 0 ==> front[i] == opts[i]);
            assert forall|j: int| i < j < front.len() implies (#[trigger] front[j]).key
                != "no-new-privileges"@ by {
                assert(front[j] == opts[j]);
            }
            lemma_last_privilege_option(s, front, i);
        }
    }
}

/// Law: the last option about new privileges counts; without one, only a privileged container
/// may gain them. `i` is the place of that option, or -1.
pub proof fn law_last_privilege_option_counts(
    policy: SeccompPolicy,
    label: Option<Seq<char>>,
    default_profile: Seq<char>,
    privileged: bool,
    opts: Seq<SecurityView>,
    i: int,
)
    requires
        -1 <= i < opts.len(),
        i >= 0 ==> opts[i].key == "no-new-privileges"@,
        forall|j: int| i < j < opts.len() ==> (#[trigger] opts[j]).key != "no-new-privileges"@,
    ensures
        security_settings_value(policy, label, default_profile, privileged, opts) matches Ok(t)
            ==> t.no_new_privileges == if i < 0 {
            !privileged
        } else {
            !opts[i].is_false()
        },
{
    if let Ok(s) = initial_security(policy, label, default_profile, privileged) {
        lemma_last_privilege_option(s, opts, i);
    }
}

/// Whether an option says which profile is used.
pub open spec fn is_profile_option(opt: SecurityView) -> bool {
    opt.key == "seccomp"@ && opt.value is Some
}

/// The profile that an option asks for.
pub open spec fn asked_profile(opt: SecurityView) -> Option<SeccompSourceView> {
    if opt.value == Some("unconfined"@) {
        None
    } else {
        Some(SeccompSourceView::File(opt.value->0))
    }
}

proof fn lemma_last_profile_option(s: SecuritySettingsView, opts: Seq<SecurityView>, i: int)
    requires
        -1 <= i < opts.len(),
        i >= 0 ==> is_profile_option(opts[i]),
        forall|j: int| i < j < opts.len() ==> !is_profile_option(#[trigger] opts[j]),
    ensures
        after_options(s, opts) matches Ok(t) ==> t.seccomp == if i < 0 {
            s.seccomp
        } else {
            asked_profile(opts[i])
        },
    decreases opts.len(),
{
    if opts.len() > 0 {
        let front = opts.drop_last();
        assert(opts.last() == opts[opts.len() - 1]);
        if i < opts.len() - 1 {
            assert(i >= 0 ==> front[i] == opts[i]);
            assert forall|j: int| i < j < front.len() implies !is_profile_option(
                #[trigger] front[j],
            ) by {
                assert(front[j] == opts[j]);
            }
            lemma_last_profile_option(s, front, i);
        } else {
            reveal_strlit("seccomp");
            reveal_strlit("no-new-privileges");
            assert("seccomp"@.len() != "no-new-privileges"@.len());
        }
    }
}

/// Law: the last option that names a profile counts in a container that is not privileged;
/// without one, the profile is the image's or the host's, as the policy says. `i` is the place
/// of that option, or -1.
pub proof fn law_last_profile_option_counts(
    policy: SeccompPolicy,
    label: Option<Seq<char>>,
    default_profile: Seq<char>,
    opts: Seq<SecurityView>,
    i: int,
)
    requires
        -1 <= i < opts.len(),
        i >= 0 ==> is_profile_option(opts[i]),
        forall|j: int| i < j < opts.len() ==> !is_profile_option(#[trigger] opts[j]),
    ensures
        security_settings_value(policy, label, default_profile, false, opts) matches Ok(s)
            ==> s.seccomp == if i >= 0 {
            asked_profile(opts[i])
        } else if policy == SeccompPolicy::Image {
            Some(SeccompSourceView::Inline(label->0))
        } else {
            Some(SeccompSourceView::File(default_profile))
        },
{
    if let Ok(s) = initial_security(policy, label, default_profile, false) {
        lemma_last_profile_option(s, opts, i);
    }
}

/// Whether an option switches SELinux off.
pub open spec fn is_disabling_option(opt: SecurityView) -> bool {
    opt.key == "label"@ && opt.value == Some("disable"@)
}

proof fn lemma_disabling_option(s: SecuritySettingsView, opts: Seq<SecurityView>)
    ensures
        after_options(s, opts) matches Ok(t) ==> (t.selinux_disabled <==> s.selinux_disabled
            || exists|i: int| 0 <= i < opts.len() && is_disabling_option(#[trigger] opts[i])),
    decreases opts.len(),
{
    if opts.len() > 0 {
        let front = opts.drop_last();
        lemma_disabling_option(s, front);
        reveal_strlit("label");
        reveal_strlit("seccomp");
        reveal_strlit("no-new-privileges");
        assert(opts.last() == opts[opts.len() - 1]);
        if let Ok(t) = after_options(s, opts) {
            let u = after_options(s, front)->Ok_0;
            if u.selinux_disabled && !s.selinux_disabled {
                let k = choose|k: int|
                    0 <= k < front.len() && is_disabling_option(#[trigger] front[k]);
                assert(is_disabling_option(opts[k]));
            }
            if exists|i: int| 0 <= i < opts.len() && is_disabling_option(#[trigger] opts[i]) {
                let k = choose|k: int|
                    0 <= k < opts.len() && is_disabling_option(#[trigger] opts[k]);
                if k < front.len() {
                    assert(is_disabling_option(front[k]));
                } else {
                    assert("label"@.len() != "seccomp"@.len());
                    assert("label"@.len() != "no-new-privileges"@.len());
                }
            }
        }
    }
}

/// Law: SELinux is off in a privileged container and where an option switches it off, and
/// nowhere else.
pub proof fn law_selinux_is_off_where_asked(
    policy: SeccompPolicy,
    label: Option<Seq<char>>,
    default_profile: Seq<char>,
    privileged: bool,
    opts: Seq<SecurityView>,
)
    ensures
        security_settings_value(policy, label, default_profile, privileged, opts) matches Ok(s)
            ==> (s.selinux_disabled <==> privileged || exists|i: int|
            0 <= i < opts.len() && is_disabling_option(#[trigger] opts[i])),
{
    if let Ok(s) = initial_security(policy, label, default_profile, privileged) {
        lemma_disabling_option(s, opts);
    }
}

/// Law: one more option changes what it is about, and nothing else: a `label` with a word of its
/// own is kept for SELinux behind those before it, `nested` and `disable` are switched on, and the
/// other two keys leave all of that alone.
pub proof fn law_one_more_option(
    policy: SeccompPolicy,
    label: Option<Seq<char>>,
    default_profile: Seq<char>,
    opts: Seq<SecurityView>,
    opt: SecurityView,
)
    requires
        is_known_option(opt),
    ensures
        security_settings_value(policy, label, default_profile, false, opts) matches Ok(s) ==> (
        security_settings_value(policy, label, default_profile, false, opts.push(opt)) matches Ok(t)
            && {
            let word = if opt.key == "label"@ {
                opt.value
            } else {
                None
            };
            &&& t.selinux_disabled == (s.selinux_disabled || word == Some("disable"@))
            &&& t.selinux_nested == (s.selinux_nested || word == Some("nested"@))
            &&& t.label_opts == if word is Some && word != Some("disable"@) && word != Some(
                "nested"@,
            ) {
                s.label_opts.push(word->0)
            } else {
                s.label_opts
            }
            &&& opt.key != "seccomp"@ || opt.value is None ==> t.seccomp == s.seccomp
            &&& opt.key != "no-new-privileges"@ ==> t.no_new_privileges == s.no_new_privileges
        }),
{
    reveal_strlit("label");
    reveal_strlit("seccomp");
    reveal_strlit("no-new-privileges");
    reveal_strlit("disable");
    reveal_strlit("nested");
    assert("label"@.len() != "seccomp"@.len());
    assert("label"@.len() != "no-new-privileges"@.len());
    assert("disable"@.len() != "nested"@.len());
    assert(opts.push(opt).drop_last() =~= opts);
}

/// Law: without options nothing is asked of SELinux.
pub proof fn law_security_without_options(
    policy: SeccompPolicy,
    label: Option<Seq<char>>,
    default_profile: Seq<char>,
)
    ensures
        security_settings_value(policy, label, default_profile, false, seq![]) matches Ok(s) ==> {
            &&& !s.selinux_disabled && !s.selinux_nested
            &&& s.label_opts.len() == 0
            &&& s.no_new_privileges
        },
{
}

/// Law: being privileged changes nothing of what the options say about nesting and labels.
pub proof fn law_privileged_keeps_the_labels(
    policy: SeccompPolicy,
    label: Option<Seq<char>>,
    default_profile: Seq<char>,
    opts: Seq<SecurityView>,
)
    ensures
        security_settings_value(policy, label, default_profile, true, opts) matches Ok(s) ==> (
        security_settings_value(policy, label, default_profile, false, opts) matches Ok(t)
            && s.selinux_nested == t.selinux_nested && s.label_opts == t.label_opts),
{
    if let Ok(a) = initial_security(policy, label, default_profile, true) {
        let b = initial_security(policy, label, default_profile, false)->Ok_0;
        lemma_options_treat_labels_alike(a, b, opts);
    }
}

proof fn lemma_options_treat_labels_alike(
    a: SecuritySettingsView,
    b: SecuritySettingsView,
    opts: Seq<SecurityView>,
)
    requires
        a.selinux_nested == b.selinux_nested,
        a.label_opts == b.label_opts,
    ensures
        after_options(a, opts) is Ok <==> after_options(b, opts) is Ok,
        after_options(a, opts) matches Ok(s) ==> (after_options(b, opts) matches Ok(t)
            && s.selinux_nested == t.selinux_nested && s.label_opts == t.label_opts),
    decreases opts.len(),
{
    if opts.len() > 0 {
        lemma_options_treat_labels_alike(a, b, opts.drop_last());
    }
}

/// Law: the first option whose key means nothing is the one that is refused, by its key; and a
/// missing profile is refused before any option is looked at.
pub proof fn law_the_first_unknown_option_is_refused(
    policy: SeccompPolicy,
    label: Option<Seq<char>>,
    default_profile: Seq<char>,
    privileged: bool,
    opts: Seq<SecurityView>,
    i: int,
)
    requires
        0 <= i < opts.len(),
        forall|j: int| 0 <= j < i ==> is_known_option(#[trigger] opts[j]),
        !is_known_option(opts[i]),
    ensures
        security_settings_value(policy, label, default_profile, privileged, opts) == Err::<
            SecuritySettingsView,
            RunErrorView,
        >(
            if policy == SeccompPolicy::Image && label is None {
                RunErrorView::NoSeccompProfile
            } else {
                RunErrorView::UnsupportedSecurityOpt(opts[i].key)
            },
        ),
{
    if let Ok(s) = initial_security(policy, label, default_profile, privileged) {
        let front = opts.take(i);
        assert forall|j: int| 0 <= j < front.len() implies is_known_option(#[trigger] front[j]) by {
            assert(front[j] == opts[j]);
        }
        lemma_accepted_options(s, front);
        let upto = opts.take(i + 1);
        assert(upto.drop_last() =~= front);
        assert(upto.last() == opts[i]);
        lemma_stays_refused(s, opts, i + 1);
    }
}

/// Law: three keys mean something, and of their values a few words: only `unconfined` asks for no
/// profile, any other value of that key is the file that holds it, and only `disable` switches
/// SELinux off.
pub proof fn law_words_of_the_options(opt: SecurityView)
    ensures
        is_known_option(opt) <==> seq!["no-new-privileges"@, "seccomp"@, "label"@].contains(
            opt.key,
        ),
        is_profile_option(opt) <==> opt.key == "seccomp"@ && opt.value is Some,
        opt.value == Some("unconfined"@) ==> asked_profile(opt) is None,
        opt.value is Some && opt.value != Some("unconfined"@) ==> asked_profile(opt) == Some(
            SeccompSourceView::File(opt.value->0),
        ),
        is_disabling_option(opt) <==> opt.key == "label"@ && opt.value == Some("disable"@),
{
    let keys = seq!["no-new-privileges"@, "seccomp"@, "label"@];
    assert(keys[0] == "no-new-privileges"@ && keys[1] == "seccomp"@ && keys[2] == "label"@);
}

/// Law: a profile that an option names is used from that file, whatever came before it, and one
/// that is `unconfined` leaves none.
pub proof fn law_a_named_profile_is_used(
    policy: SeccompPolicy,
    label: Option<Seq<char>>,
    default_profile: Seq<char>,
    opts: Seq<SecurityView>,
    profile: Seq<char>,
)
    ensures
        ({
            let opt = SecurityView { key: "seccomp"@, value: Some(profile) };
            security_settings_value(policy, label, default_profile, false, opts.push(opt)) matches Ok(
                s,
            ) ==> s.seccomp == if profile == "unconfined"@ {
                None
            } else {
                Some(SeccompSourceView::File(profile))
            }
        }),
        ({
            let opt = SecurityView { key: "no-new-privileges"@, value: Some(profile) };
            security_settings_value(policy, label, default_profile, false, opts.push(opt)) matches Ok(
                s,
            ) ==> (s.no_new_privileges <==> profile != "false"@ && profile != "0"@ && profile
                != "no"@)
        }),
{
    reveal_strlit("seccomp");
    reveal_strlit("no-new-privileges");
    assert("seccomp"@.len() != "no-new-privileges"@.len());
    let a = SecurityView { key: "seccomp"@, value: Some(profile) };
    let b = SecurityView { key: "no-new-privileges"@, value: Some(profile) };
    assert(opts.push(a).drop_last() =~= opts);
    assert(opts.push(b).drop_last() =~= opts);
}

} // verus!

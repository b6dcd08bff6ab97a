//! The files under `/etc` that a container gets from the runner.
use vstd::prelude::*;
use vstd::string::*;

use crate::error::opt_text;
use crate::mount::{mount, MountView};
use crate::mount::Mount;
use crate::options::{HostEntry, HostView, NetworkMode};
use crate::path::join_path;
use crate::path::joined;
use crate::text::{
    append_texts, concat2, concat3, copy_texts, join_texts, lines_of, one, same_text, starts_with,
    trim_text, two,
};
use crate::text::{join, lemma_first_index, lines, texts, trim, views, without_carriage_return};

verus! {

/// A text of some lines, each with its line feed.
pub open spec fn unlines(list: Seq<Seq<char>>) -> Seq<char>
    decreases list.len(),
{
    if list.len() == 0 {
        seq![]
    } else {
        unlines(list.drop_last()) + list.last() + seq!['\n']
    }
}

fn write_lines(list: &Vec<String>) -> (r: String)
    ensures
        r@ == unlines(texts(list@)),
{
    let ghost all = texts(list@);
    let mut r = String::new();
    let mut i: usize = 0;
    while i < list.len()
        invariant
            all == texts(list@),
            i <= list@.len(),
            r@ == unlines(all.take(i as int)),
        decreases list@.len() - i,
    {
        assert(all.take(i + 1).drop_last() =~= all.take(i as int));
        assert(all.take(i + 1).last() == list@[i as int]@);
        r.append(list[i].as_str());
        r.push('\n');
        assert(r@ =~= unlines(all.take(i + 1)));
        i = i + 1;
    }
    assert(all.take(i as int) =~= all);
    r
}

proof fn lemma_unlines_first(list: Seq<Seq<char>>)
    requires
        list.len() > 0,
    ensures
        unlines(list) == list[0] + seq!['\n'] + unlines(list.drop_first()),
    decreases list.len(),
{
    let rest = list.drop_first();
    if list.len() == 1 {
        assert(list.drop_last() =~= seq![]);
        assert(rest =~= seq![]);
        assert(unlines(list) =~= list[0] + seq!['\n'] + unlines(rest));
    } else {
        let front = list.drop_last();
        lemma_unlines_first(front);
        assert(front.drop_first() =~= rest.drop_last());
        assert(rest.last() == list.last());
        assert(unlines(list) =~= list[0] + seq!['\n'] + unlines(rest));
    }
}

/// Law: lines that are written down are read back, where none of them holds a line feed or ends
/// in a carriage return.
pub proof fn law_lines_read_back(list: Seq<Seq<char>>)
    requires
        forall|i: int|
            0 <= i < list.len() ==> !(#[trigger] list[i]).contains('\n') && !(list[i].len() > 0
                && list[i].last() == '\r'),
    ensures
        lines(unlines(list)) == list,
    decreases list.len(),
{
    if list.len() == 0 {
        assert(lines(unlines(list)) =~= list);
    } else {
        lemma_unlines_first(list);
        let s = unlines(list);
        let l = list[0];
        let rest = list.drop_first();
        assert forall|i: int| 0 <= i < rest.len() implies !(#[trigger] rest[i]).contains('\n')
            && !(rest[i].len() > 0 && rest[i].last() == '\r') by {
            assert(rest[i] == list[i + 1]);
        }
        law_lines_read_back(rest);
        assert forall|j: int| 0 <= j < l.len() implies s[j] != '\n' by {
            assert(s[j] == l[j]);
            assert(l.contains(l[j]));
        }
        assert(s[l.len() as int] == '\n');
        lemma_first_index(s, '\n', l.len() as int);
        assert(s.take(l.len() as int) =~= l);
        assert(s.skip(l.len() as int + 1) =~= unlines(rest));
        assert(without_carriage_return(l) =~= l);
        assert(lines(s) =~= list);
    }
}

// ---------------------------------------------------------------------------------------
// /etc/hosts

/// The lines of `/etc/hosts`: what the user adds comes first.
pub open spec fn hosts_lines(extra: Seq<HostView>, hostname: Seq<char>) -> Seq<Seq<char>> {
    Seq::new(extra.len(), |i: int| extra[i].ip + "\t"@ + extra[i].host) + seq![
        "127.0.0.1\tlocalhost"@,
        "::1\t\tlocalhost"@,
        "127.0.0.1\t"@ + hostname,
    ]
}

fn hosts_file(extra: &Vec<HostEntry>, hostname: &str) -> (r: String)
    ensures
        r@ == unlines(hosts_lines(views(extra@), hostname@)),
{
    let ghost all = views(extra@);
    let ghost want = Seq::new(all.len(), |i: int| all[i].ip + "\t"@ + all[i].host);
    let mut list: Vec<String> = Vec::new();
    let mut i: usize = 0;
    while i < extra.len()
        invariant
            all == views(extra@),
            want == Seq::new(all.len(), |i: int| all[i].ip + "\t"@ + all[i].host),
            i <= extra@.len(),
            texts(list@) == want.take(i as int),
        decreases extra@.len() - i,
    {
        let ghost before = texts(list@);
        assert(all[i as int] == extra@[i as int]@);
        list.push(concat3(extra[i].ip.as_str(), "\t", extra[i].host.as_str()));
        assert(texts(list@) =~= before.push(want[i as int]));
        i = i + 1;
    }
    assert(want.take(i as int) =~= want);
    list.push("127.0.0.1\tlocalhost".to_owned());
    list.push("::1\t\tlocalhost".to_owned());
    list.push(concat2("127.0.0.1\t", hostname));
    assert(texts(list@) =~= hosts_lines(all, hostname@));
    write_lines(&list)
}

// ---------------------------------------------------------------------------------------
// /etc/resolv.conf

/// The lines that start with a word.
pub open spec fn lines_with(list: Seq<Seq<char>>, word: Seq<char>) -> Seq<Seq<char>>
    decreases list.len(),
{
    if list.len() == 0 {
        seq![]
    } else if word.is_prefix_of(list.last()) {
        lines_with(list.drop_last(), word).push(list.last())
    } else {
        lines_with(list.drop_last(), word)
    }
}

/// The given servers, or those of the host.
pub open spec fn server_lines(base: Seq<char>, dns: Seq<Seq<char>>) -> Seq<Seq<char>> {
    if dns.len() == 0 {
        lines_with(lines(base), "nameserver "@)
    } else {
        Seq::new(dns.len(), |i: int| "nameserver "@ + dns[i])
    }
}

/// The given words on one line, or the lines of the host that start with the same keyword.
pub open spec fn word_lines(base: Seq<char>, keyword: Seq<char>, words: Seq<Seq<char>>) -> Seq<
    Seq<char>,
> {
    if words.len() == 0 {
        lines_with(lines(base), keyword)
    } else {
        seq![keyword + join(words, " "@)]
    }
}

/// The lines of `/etc/resolv.conf` where anything was given.
pub open spec fn resolv_lines(
    base: Seq<char>,
    dns: Seq<Seq<char>>,
    search: Seq<Seq<char>>,
    options: Seq<Seq<char>>,
) -> Seq<Seq<char>> {
    server_lines(base, dns) + word_lines(base, "search "@, search) + word_lines(
        base,
        "options "@,
        options,
    )
}

/// `/etc/resolv.conf`: the host's, where nothing was given.
pub open spec fn resolv_text(
    base: Seq<char>,
    dns: Seq<Seq<char>>,
    search: Seq<Seq<char>>,
    options: Seq<Seq<char>>,
) -> Seq<char> {
    if dns.len() == 0 && search.len() == 0 && options.len() == 0 {
        base
    } else {
        unlines(resolv_lines(base, dns, search, options))
    }
}

fn select_lines(list: &Vec<String>, word: &str) -> (r: Vec<String>)
    ensures
        texts(r@) == lines_with(texts(list@), word@),
{
    let ghost all = texts(list@);
    let mut r: Vec<String> = Vec::new();
    let mut i: usize = 0;
    assert(texts(r@) =~= lines_with(all.take(0), word@));
    while i < list.len()
        invariant
            all == texts(list@),
            i <= list@.len(),
            texts(r@) == lines_with(all.take(i as int), word@),
        decreases list@.len() - i,
    {
        assert(all.take(i + 1).drop_last() =~= all.take(i as int));
        assert(all.take(i + 1).last() == list@[i as int]@);
        if starts_with(list[i].as_str(), word) {
            let ghost before = texts(r@);
            r.push(list[i].clone());
            assert(texts(r@) =~= before.push(list@[i as int]@));
        }
        i = i + 1;
    }
    assert(all.take(i as int) =~= all);
    r
}

fn word_line_list(base: &str, keyword: &str, words: &Vec<String>) -> (r: Vec<String>)
    ensures
        texts(r@) == word_lines(base@, keyword@, texts(words@)),
{
    if words.len() == 0 {
        select_lines(&lines_of(base), keyword)
    } else {
        let r: Vec<String> = vec![concat2(keyword, join_texts(words, " ").as_str())];
        assert(texts(r@) =~= seq![keyword@ + join(texts(words@), " "@)]);
        r
    }
}

/// `/etc/resolv.conf` of a container. `base` is that of the host.
pub fn resolv_conf(
    base: &str,
    dns: &Vec<String>,
    search: &Vec<String>,
    options: &Vec<String>,
) -> (r: String)
    ensures
        r@ == resolv_text(base@, texts(dns@), texts(search@), texts(options@)),
{
    if dns.len() == 0 && search.len() == 0 && options.len() == 0 {
        return base.to_owned();
    }
    let mut list: Vec<String> = Vec::new();
    if dns.len() == 0 {
        list = select_lines(&lines_of(base), "nameserver ");
    } else {
        let ghost want = Seq::new(dns@.len(), |i: int| "nameserver "@ + dns@[i]@);
        let mut i: usize = 0;
        while i < dns.len()
            invariant
                want == Seq::new(dns@.len(), |i: int| "nameserver "@ + dns@[i]@),
                i <= dns@.len(),
                texts(list@) == want.take(i as int),
            decreases dns@.len() - i,
        {
            let ghost before = texts(list@);
            list.push(concat2("nameserver ", dns[i].as_str()));
            assert(texts(list@) =~= before.push(want[i as int]));
            i = i + 1;
        }
        assert(want.take(i as int) =~= want);
        assert(want =~= server_lines(base@, texts(dns@)));
    }
    assert(texts(list@) =~= server_lines(base@, texts(dns@)));
    let more = word_line_list(base, "search ", search);
    let list2 = append_texts(list, &more);
    let rest = word_line_list(base, "options ", options);
    let list3 = append_texts(list2, &rest);
    assert(texts(list3@) =~= resolv_lines(base@, texts(dns@), texts(search@), texts(options@)));
    write_lines(&list3)
}

/// Whether one of the lines of a text, trimmed, is `line`.
pub open spec fn has_line(text: Seq<char>, line: Seq<char>) -> bool {
    exists|i: int| 0 <= i < lines(text).len() && trim(#[trigger] lines(text)[i]) == line
}

fn holds_line(text: &str, line: &str) -> (r: bool)
    ensures
        r == has_line(text@, line@),
{
    let list = lines_of(text);
    let ghost all = lines(text@);
    let mut i: usize = 0;
    while i < list.len()
        invariant
            all == lines(text@),
            texts(list@) == all,
            i <= list@.len(),
            forall|j: int| 0 <= j < i ==> trim(#[trigger] all[j]) != line@,
        decreases list@.len() - i,
    {
        assert(all[i as int] == list@[i as int]@);
        if same_text(trim_text(list[i].as_str()), line) {
            return true;
        }
        i = i + 1;
    }
    assert(all.len() == list@.len());
    false
}

/// Whether the host asks the resolver of systemd.
pub open spec fn asks_systemd(text: Seq<char>) -> bool {
    has_line(text, "nameserver 127.0.0.53"@)
}

/// Whether the host asks the resolver of NetworkManager.
pub open spec fn asks_network_manager(text: Seq<char>) -> bool {
    has_line(text, "nameserver 127.0.0.1"@)
}

/// Whether the host asks the resolver of systemd.
pub fn is_systemd_stub(text: &str) -> (r: bool)
    ensures
        r == asks_systemd(text@),
{
    holds_line(text, "nameserver 127.0.0.53")
}

/// Whether the host asks the resolver of NetworkManager.
pub fn is_network_manager_stub(text: &str) -> (r: bool)
    ensures
        r == asks_network_manager(text@),
{
    holds_line(text, "nameserver 127.0.0.1")
}

/// The host's configuration: where it only names a resolver of its own, what that one uses,
/// as far as it can be read.
pub open spec fn host_resolv_text(
    content: Seq<char>,
    systemd: Option<Seq<char>>,
    network_manager: Option<Seq<char>>,
) -> Seq<char> {
    if asks_systemd(content) && systemd is Some {
        systemd->0
    } else if asks_network_manager(content) && network_manager is Some {
        network_manager->0
    } else {
        content
    }
}

/// The host's configuration. `content` is `/etc/resolv.conf`, `systemd` and `network_manager` are
/// what the two resolvers use, where it can be read.
pub fn host_resolv_conf(
    content: String,
    systemd: Option<String>,
    network_manager: Option<String>,
) -> (r: String)
    ensures
        r@ == host_resolv_text(content@, opt_text(systemd), opt_text(network_manager)),
{
    if is_systemd_stub(content.as_str()) {
        if let Some(used) = systemd {
            return used;
        }
    }
    if is_network_manager_stub(content.as_str()) {
        if let Some(used) = network_manager {
            return used;
        }
    }
    content
}

/// The servers that a container asks: under pasta, its forwarder where none is given.
pub open spec fn dns_value(given: Seq<Seq<char>>, network: NetworkMode) -> Seq<Seq<char>> {
    if given.len() == 0 && network == NetworkMode::Pasta {
        seq!["169.254.1.1"@]
    } else {
        given
    }
}

/// The servers that a container asks.
pub fn effective_dns(given: &Vec<String>, network: NetworkMode) -> (r: Vec<String>)
    ensures
        texts(r@) == dns_value(texts(given@), network),
{
    if given.len() == 0 && network == NetworkMode::Pasta {
        one("169.254.1.1")
    } else {
        copy_texts(given)
    }
}

// ---------------------------------------------------------------------------------------
// All of them

/// A file that the runner writes.
#[derive(Debug)]
pub struct EtcFile {
    pub path: String,
    pub content: String,
}

/// The model of an [`EtcFile`].
#[verifier::ext_equal]
pub struct EtcFileView {
    pub path: Seq<char>,
    pub content: Seq<char>,
}

impl View for EtcFile {
    type V = EtcFileView;

    open spec fn view(&self) -> EtcFileView {
        EtcFileView { path: self.path@, content: self.content@ }
    }
}

/// The files under `/etc`, and the mounts that bring them there.
#[derive(Debug)]
pub struct EtcConfig {
    pub hostname: EtcFile,
    pub hosts: EtcFile,
    pub resolv: EtcFile,
    pub mounts: Vec<Mount>,
}

/// The model of an [`EtcConfig`].
#[verifier::ext_equal]
pub struct EtcConfigView {
    pub hostname: EtcFileView,
    pub hosts: EtcFileView,
    pub resolv: EtcFileView,
    pub mounts: Seq<MountView>,
}

impl View for EtcConfig {
    type V = EtcConfigView;

    open spec fn view(&self) -> EtcConfigView {
        EtcConfigView {
            hostname: self.hostname@,
            hosts: self.hosts@,
            resolv: self.resolv@,
            mounts: views(self.mounts@),
        }
    }
}

/// A file of the bundle at its place in the container.
pub open spec fn etc_mount(place: Seq<char>, source: Seq<char>) -> MountView {
    mount(place, "bind"@, source, seq!["bind"@, "rprivate"@])
}

/// The mounts of the files under `/etc`.
pub open spec fn etc_mount_list(bundle_dir: Seq<char>) -> Seq<MountView> {
    seq![
        etc_mount("/etc/hostname"@, joined(bundle_dir, "hostname"@)),
        etc_mount("/etc/hosts"@, joined(bundle_dir, "hosts"@)),
        etc_mount("/etc/resolv.conf"@, joined(bundle_dir, "resolv.conf"@)),
    ]
}

/// The files under `/etc`, and the mounts that bring them there.
pub open spec fn etc_config_value(
    bundle_dir: Seq<char>,
    hostname: Seq<char>,
    add_host: Seq<HostView>,
    resolv: Seq<char>,
) -> EtcConfigView {
    EtcConfigView {
        hostname: EtcFileView {
            path: joined(bundle_dir, "hostname"@),
            content: hostname + "\n"@,
        },
        hosts: EtcFileView {
            path: joined(bundle_dir, "hosts"@),
            content: unlines(hosts_lines(add_host, hostname)),
        },
        resolv: EtcFileView { path: joined(bundle_dir, "resolv.conf"@), content: resolv },
        mounts: etc_mount_list(bundle_dir),
    }
}

/// The files under `/etc`, and the mounts that bring them there. `host_resolv` is the host's
/// configuration of the resolver.
pub fn generate_etc_config(
    bundle_dir: &str,
    hostname: &str,
    add_host: &Vec<HostEntry>,
    dns: &Vec<String>,
    dns_search: &Vec<String>,
    dns_option: &Vec<String>,
    host_resolv: &str,
) -> (r: EtcConfig)
    ensures
        r@ == etc_config_value(
            bundle_dir@,
            hostname@,
            views(add_host@),
            resolv_text(host_resolv@, texts(dns@), texts(dns_search@), texts(dns_option@)),
        ),
{
    let hostname_path = join_path(bundle_dir, "hostname");
    let hosts_path = join_path(bundle_dir, "hosts");
    let resolv_path = join_path(bundle_dir, "resolv.conf");
    let mounts: Vec<Mount> = vec![
        Mount::new("/etc/hostname", "bind", hostname_path.as_str(), two("bind", "rprivate")),
        Mount::new("/etc/hosts", "bind", hosts_path.as_str(), two("bind", "rprivate")),
        Mount::new("/etc/resolv.conf", "bind", resolv_path.as_str(), two("bind", "rprivate")),
    ];
    assert(views(mounts@) =~= etc_mount_list(bundle_dir@));
    EtcConfig {
        hostname: EtcFile { path: hostname_path, content: concat2(hostname, "\n") },
        hosts: EtcFile { path: hosts_path, content: hosts_file(add_host, hostname) },
        resolv: EtcFile {
            path: resolv_path,
            content: resolv_conf(host_resolv, dns, dns_search, dns_option),
        },
        mounts,
    }
}

// ---------------------------------------------------------------------------------------
// Laws

proof fn lemma_lines_with_all(list: Seq<Seq<char>>, word: Seq<char>)
    requires
        forall|i: int| 0 <= i < list.len() ==> word.is_prefix_of(#[trigger] list[i]),
    ensures
        lines_with(list, word) == list,
    decreases list.len(),
{
    if list.len() > 0 {
        let front = list.drop_last();
        assert forall|i: int| 0 <= i < front.len() implies word.is_prefix_of(#[trigger] front[i]) by {
            assert(front[i] == list[i]);
        }
        lemma_lines_with_all(front, word);
        assert(word.is_prefix_of(list[list.len() - 1]));
        assert(front.push(list.last()) =~= list);
    } else {
        assert(lines_with(list, word) =~= list);
    }
}

proof fn lemma_lines_with_none(list: Seq<Seq<char>>, word: Seq<char>)
    requires
        forall|i: int| 0 <= i < list.len() ==> !word.is_prefix_of(#[trigger] list[i]),
    ensures
        lines_with(list, word) == Seq::<Seq<char>>::empty(),
    decreases list.len(),
{
    if list.len() > 0 {
        let front = list.drop_last();
        assert forall|i: int| 0 <= i < front.len() implies !word.is_prefix_of(#[trigger] front[i]) by {
            assert(front[i] == list[i]);
        }
        lemma_lines_with_none(front, word);
        assert(!word.is_prefix_of(list[list.len() - 1]));
    }
}

proof fn lemma_lines_with_concat(a: Seq<Seq<char>>, b: Seq<Seq<char>>, word: Seq<char>)
    ensures
        lines_with(a + b, word) == lines_with(a, word) + lines_with(b, word),
    decreases b.len(),
{
    if b.len() == 0 {
        assert(a + b =~= a);
        assert(lines_with(a + b, word) =~= lines_with(a, word) + lines_with(b, word));
    } else {
        assert((a + b).drop_last() =~= a + b.drop_last());
        assert((a + b).last() == b.last());
        lemma_lines_with_concat(a, b.drop_last(), word);
        assert(lines_with(a + b, word) =~= lines_with(a, word) + lines_with(b, word));
    }
}

proof fn lemma_lines_with_start(list: Seq<Seq<char>>, word: Seq<char>)
    ensures
        forall|i: int|
            0 <= i < lines_with(list, word).len() ==> word.is_prefix_of(
                #[trigger] lines_with(list, word)[i],
            ),
    decreases list.len(),
{
    if list.len() > 0 {
        let before = lines_with(list.drop_last(), word);
        let r = lines_with(list, word);
        lemma_lines_with_start(list.drop_last(), word);
        assert forall|i: int| 0 <= i < r.len() implies word.is_prefix_of(#[trigger] r[i]) by {
            if i < before.len() {
                assert(r[i] == before[i]);
            }
        }
    }
}

proof fn lemma_word_lines_start(base: Seq<char>, keyword: Seq<char>, words: Seq<Seq<char>>)
    ensures
        forall|i: int|
            0 <= i < word_lines(base, keyword, words).len() ==> keyword.is_prefix_of(
                #[trigger] word_lines(base, keyword, words)[i],
            ),
{
    lemma_lines_with_start(lines(base), keyword);
    if words.len() > 0 {
        let l = keyword + join(words, " "@);
        assert(l.subrange(0, keyword.len() as int) =~= keyword);
    }
}

/// Law: the servers that are given take the place of those of the host: the lines that name a
/// server are then those of the given ones, in their order.
pub proof fn law_given_servers_replace_the_hosts(
    base: Seq<char>,
    dns: Seq<Seq<char>>,
    search: Seq<Seq<char>>,
    options: Seq<Seq<char>>,
)
    requires
        dns.len() > 0,
    ensures
        lines_with(resolv_lines(base, dns, search, options), "nameserver "@) == Seq::new(
            dns.len(),
            |i: int| "nameserver "@ + dns[i],
        ),
{
    reveal_strlit("nameserver ");
    reveal_strlit("search ");
    reveal_strlit("options ");
    let word = "nameserver "@;
    let a = server_lines(base, dns);
    let b = word_lines(base, "search "@, search);
    let c = word_lines(base, "options "@, options);
    assert forall|i: int| 0 <= i < a.len() implies word.is_prefix_of(#[trigger] a[i]) by {
        assert(a[i].subrange(0, word.len() as int) =~= word);
    }
    lemma_lines_with_all(a, word);
    lemma_word_lines_start(base, "search "@, search);
    assert forall|i: int| 0 <= i < b.len() implies !word.is_prefix_of(#[trigger] b[i]) by {
        assert("search "@.is_prefix_of(b[i]));
        assert(b[i].subrange(0, 7)[0] == b[i][0]);
        if word.is_prefix_of(b[i]) {
            assert(b[i].subrange(0, 11)[0] == b[i][0]);
        }
    }
    lemma_lines_with_none(b, word);
    lemma_word_lines_start(base, "options "@, options);
    assert forall|i: int| 0 <= i < c.len() implies !word.is_prefix_of(#[trigger] c[i]) by {
        assert("options "@.is_prefix_of(c[i]));
        assert(c[i].subrange(0, 8)[0] == c[i][0]);
        if word.is_prefix_of(c[i]) {
            assert(c[i].subrange(0, 11)[0] == c[i][0]);
        }
    }
    lemma_lines_with_none(c, word);
    lemma_lines_with_concat(a, b, word);
    lemma_lines_with_concat(a + b, c, word);
    assert(lines_with(a + b + c, word) =~= a);
}

/// Law: the lines that are taken from the host are those that start with a word, all of them in
/// their order and no other.
pub proof fn law_lines_with_a_word(list: Seq<Seq<char>>, word: Seq<char>)
    ensures
        lines_with(list, word) == list.filter(|l: Seq<char>| word.is_prefix_of(l)),
    decreases list.len(),
{
    let f = |l: Seq<char>| word.is_prefix_of(l);
    reveal(Seq::filter);
    if list.len() > 0 {
        law_lines_with_a_word(list.drop_last(), word);
    } else {
        assert(list.filter(f) =~= seq![]);
    }
}

/// Law: the configuration of the resolver is the host's where nothing is given. Else it holds the
/// servers, the search domains and the options, in this order: of each kind what was given, and
/// the lines of the host where nothing was.
pub proof fn law_resolver_configuration(
    base: Seq<char>,
    dns: Seq<Seq<char>>,
    search: Seq<Seq<char>>,
    options: Seq<Seq<char>>,
)
    ensures
        resolv_text(base, seq![], seq![], seq![]) == base,
        dns.len() > 0 || search.len() > 0 || options.len() > 0 ==> resolv_text(
            base,
            dns,
            search,
            options,
        ) == unlines(
            (if dns.len() > 0 {
                Seq::new(dns.len(), |i: int| "nameserver "@ + dns[i])
            } else {
                lines(base).filter(|l: Seq<char>| "nameserver "@.is_prefix_of(l))
            }) + (if search.len() > 0 {
                seq!["search "@ + join(search, " "@)]
            } else {
                lines(base).filter(|l: Seq<char>| "search "@.is_prefix_of(l))
            }) + (if options.len() > 0 {
                seq!["options "@ + join(options, " "@)]
            } else {
                lines(base).filter(|l: Seq<char>| "options "@.is_prefix_of(l))
            }),
        ),
{
    law_lines_with_a_word(lines(base), "nameserver "@);
    law_lines_with_a_word(lines(base), "search "@);
    law_lines_with_a_word(lines(base), "options "@);
}

/// Law: each line is written with a line feed behind it, and the lines follow each other.
pub proof fn law_lines_are_written_in_order(first: Seq<char>, rest: Seq<Seq<char>>)
    ensures
        unlines(seq![first] + rest) == first + seq!['\n'] + unlines(rest),
        unlines(seq![]) == Seq::<char>::empty(),
{
    lemma_unlines_first(seq![first] + rest);
    assert((seq![first] + rest).drop_first() =~= rest);
}

/// Law: a host that asks a resolver of its own gets what that one uses, systemd's before
/// NetworkManager's, where it can be read; any other one keeps its configuration.
pub proof fn law_stub_resolvers_are_looked_through(
    content: Seq<char>,
    systemd: Seq<char>,
    network_manager: Seq<char>,
    i: int,
)
    requires
        0 <= i < lines(content).len(),
    ensures
        trim(lines(content)[i]) == "nameserver 127.0.0.53"@ ==> host_resolv_text(
            content,
            Some(systemd),
            Some(network_manager),
        ) == systemd && host_resolv_text(content, Some(systemd), None) == systemd,
        trim(lines(content)[i]) == "nameserver 127.0.0.1"@ ==> host_resolv_text(
            content,
            None,
            Some(network_manager),
        ) == network_manager,
        host_resolv_text(content, None, None) == content,
{
}

/// Law: a host that asks no resolver of its own keeps its configuration, whatever else there is.
pub proof fn law_other_resolvers_are_kept(
    content: Seq<char>,
    systemd: Option<Seq<char>>,
    network_manager: Option<Seq<char>>,
)
    requires
        forall|i: int|
            0 <= i < lines(content).len() ==> trim(#[trigger] lines(content)[i])
                != "nameserver 127.0.0.53"@ && trim(lines(content)[i]) != "nameserver 127.0.0.1"@,
    ensures
        host_resolv_text(content, systemd, network_manager) == content,
{
}

/// Law: a host that asks only NetworkManager's resolver is not given systemd's configuration.
pub proof fn law_network_manager_alone(
    content: Seq<char>,
    systemd: Option<Seq<char>>,
    network_manager: Seq<char>,
    i: int,
)
    requires
        0 <= i < lines(content).len(),
        trim(lines(content)[i]) == "nameserver 127.0.0.1"@,
        forall|j: int|
            0 <= j < lines(content).len() ==> trim(#[trigger] lines(content)[j])
                != "nameserver 127.0.0.53"@,
    ensures
        host_resolv_text(content, systemd, Some(network_manager)) == network_manager,
{
}

/// Law: the servers that the user names are asked, whatever the network is; where none is named
/// the host's are, except under pasta, which answers itself.
pub proof fn law_which_servers_are_asked(dns: Seq<Seq<char>>, network: NetworkMode)
    ensures
        dns.len() > 0 ==> dns_value(dns, network) == dns,
        network != NetworkMode::Pasta ==> dns_value(dns, network) == dns,
        dns_value(seq![], NetworkMode::Pasta) == seq!["169.254.1.1"@],
{
}

/// Law: what the user adds to the hosts comes first, address before name, in its order; behind it
/// come the local host and the container itself.
pub proof fn law_hosts_file(
    bundle_dir: Seq<char>,
    hostname: Seq<char>,
    first: HostView,
    rest: Seq<HostView>,
    resolv: Seq<char>,
)
    ensures
        etc_config_value(bundle_dir, hostname, seq![], resolv).hosts.content
            == "127.0.0.1\tlocalhost\n::1\t\tlocalhost\n127.0.0.1\t"@ + hostname + seq!['\n'],
        etc_config_value(bundle_dir, hostname, seq![first] + rest, resolv).hosts.content == first.ip
            + seq!['\t'] + first.host + seq!['\n'] + etc_config_value(
            bundle_dir,
            hostname,
            rest,
            resolv,
        ).hosts.content,
{
    reveal_strlit("\t");
    assert("\t"@ =~= seq!['\t']);
    reveal_strlit("127.0.0.1\tlocalhost\n::1\t\tlocalhost\n127.0.0.1\t");
    reveal_strlit("127.0.0.1\tlocalhost");
    reveal_strlit("::1\t\tlocalhost");
    reveal_strlit("127.0.0.1\t");
    let all = seq![first] + rest;
    let tail = hosts_lines(rest, hostname);
    assert(hosts_lines(all, hostname) =~= seq![first.ip + "\t"@ + first.host] + tail);
    law_lines_are_written_in_order(first.ip + "\t"@ + first.host, tail);
    let a = "127.0.0.1\tlocalhost"@;
    let b = "::1\t\tlocalhost"@;
    let c = "127.0.0.1\t"@ + hostname;
    let none = Seq::<Seq<char>>::empty();
    assert(hosts_lines(seq![], hostname) =~= seq![a] + (seq![b] + (seq![c] + none)));
    law_lines_are_written_in_order(a, seq![b] + (seq![c] + none));
    law_lines_are_written_in_order(b, seq![c] + none);
    law_lines_are_written_in_order(c, none);
    assert(unlines(hosts_lines(seq![], hostname))
        =~= "127.0.0.1\tlocalhost\n::1\t\tlocalhost\n127.0.0.1\t"@ + hostname + seq!['\n']);
}

/// Law: each file lies in the bundle and is bound, under its own name, to its place under `/etc`;
/// there are no other mounts. The host name is a line of its own, and the configuration of the
/// resolver is the one that was worked out.
pub proof fn law_etc_files(
    bundle_dir: Seq<char>,
    hostname: Seq<char>,
    add_host: Seq<HostView>,
    resolv: Seq<char>,
)
    ensures
        ({
            let etc = etc_config_value(bundle_dir, hostname, add_host, resolv);
            &&& etc.hostname.path == joined(bundle_dir, "hostname"@)
            &&& etc.hosts.path == joined(bundle_dir, "hosts"@)
            &&& etc.resolv.path == joined(bundle_dir, "resolv.conf"@)
            &&& etc.hostname.content == hostname + seq!['\n']
            &&& etc.resolv.content == resolv
            &&& etc.mounts.len() == 3
            &&& etc.mounts[0].destination == "/etc/hostname"@
            &&& etc.mounts[0].source == Some(etc.hostname.path)
            &&& etc.mounts[1].destination == "/etc/hosts"@
            &&& etc.mounts[1].source == Some(etc.hosts.path)
            &&& etc.mounts[2].destination == "/etc/resolv.conf"@
            &&& etc.mounts[2].source == Some(etc.resolv.path)
            &&& forall|i: int|
                0 <= i < 3 ==> (#[trigger] etc.mounts[i]).typ == Some("bind"@)
                    && etc.mounts[i].options == Some(seq!["bind"@, "rprivate"@])
        }),
{
    reveal_strlit("\n");
    assert("\n"@ =~= seq!['\n']);
}

} // verus!

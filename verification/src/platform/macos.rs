//! macOS: `networksetup` commands and the text they print.
use vstd::prelude::*;
use vstd::string::*;
use crate::net::{ip_string, parse_ip, IpAddr};
use crate::net::{ip_text, ip_value, is_address_char, law_address_round_trip, lemma_address_text};
use crate::platform::{DnsSetting, PlatformError};
use crate::platform::{PlatformErrorModel, SettingModel};
use crate::text::{contains_text, copy_of, join, lines, parse_unsigned, starts_with, trim};
use crate::text::{has_infix, has_prefix, infix_at, is_white, is_word, joined, lemma_lines_of_words, lemma_trimmed_word, text_lines, texts, trimmed, unsigned_value};

verus! {

/// The platform layer of macOS.
pub struct MacOsDns;

/// A line of `networksetup -listallnetworkservices` that names an enabled service:
/// neither the header, nor blank, nor marked with an asterisk.
pub open spec fn names_a_service(line: Seq<char>) -> bool {
    !has_prefix(line, "An "@) && trimmed(line).len() > 0 && !has_prefix(line, "*"@)
}

/// The enabled services that the lines name, in order.
pub open spec fn enabled_services(ls: Seq<Seq<char>>) -> Seq<Seq<char>>
    decreases ls.len(),
{
    if ls.len() == 0 {
        Seq::<Seq<char>>::empty()
    } else {
        let before = enabled_services(ls.drop_last());
        if names_a_service(ls.last()) {
            before.push(trimmed(ls.last()))
        } else {
            before
        }
    }
}

/// The enabled services that `networksetup -listallnetworkservices` printed.
pub fn parse_list_all_network_services(output: &str) -> (r: Vec<String>)
    ensures
        texts(r@) == enabled_services(text_lines(output@)),
{
    let ls = lines(output);
    let ghost all = text_lines(output@);
    let mut r: Vec<String> = Vec::new();
    let mut i: usize = 0;
    proof {
        assert(texts(r@) =~= enabled_services(all.take(0)));
    }
    while i < ls.len()
        invariant
            0 <= i <= ls.len(),
            texts(ls@) == all,
            texts(r@) == enabled_services(all.take(i as int)),
        decreases ls.len() - i,
    {
        proof {
            assert(all.take(i + 1).drop_last() =~= all.take(i as int));
            assert(all.take(i + 1).last() == ls@[i as int]@);
        }
        let line = ls[i].as_str();
        let name = trim(line);
        if !starts_with(line, "An ") && !name.as_str().is_empty() && !starts_with(line, "*") {
            let ghost before = r@;
            let ghost text = name@;
            r.push(name);
            proof {
                assert(texts(r@) =~= texts(before).push(text));
            }
        }
        i += 1;
    }
    proof {
        assert(all.take(i as int) =~= all);
    }
    r
}

/// The addresses that the lines spell, white space around them aside; other lines are
/// passed over.
pub open spec fn addresses_of(ls: Seq<Seq<char>>) -> Seq<IpAddr>
    decreases ls.len(),
{
    if ls.len() == 0 {
        Seq::<IpAddr>::empty()
    } else {
        let before = addresses_of(ls.drop_last());
        match ip_value(trimmed(ls.last())) {
            Some(ip) => before.push(ip),
            None => before,
        }
    }
}

/// The setting with these servers: DHCP where there is none.
pub open spec fn setting_of(servers: Seq<IpAddr>) -> SettingModel {
    if servers.len() == 0 {
        SettingModel::Dhcp
    } else {
        SettingModel::Static(servers)
    }
}

/// The addresses that the texts spell.
pub fn parse_addresses(ls: &Vec<String>) -> (r: Vec<IpAddr>)
    ensures
        r@ == addresses_of(texts(ls@)),
{
    let ghost all = texts(ls@);
    let mut r: Vec<IpAddr> = Vec::new();
    let mut i: usize = 0;
    while i < ls.len()
        invariant
            0 <= i <= ls.len(),
            texts(ls@) == all,
            r@ == addresses_of(all.take(i as int)),
        decreases ls.len() - i,
    {
        proof {
            assert(all.take(i + 1).drop_last() =~= all.take(i as int));
            assert(all.take(i + 1).last() == ls@[i as int]@);
        }
        let t = trim(ls[i].as_str());
        match parse_ip(t.as_str()) {
            Some(ip) => r.push(ip),
            None => {},
        }
        i += 1;
    }
    proof {
        assert(all.take(i as int) =~= all);
    }
    r
}

/// What `networksetup -getdnsservers` said: DHCP where it reports that no server is set
/// or lists no address, else the addresses it lists.
pub open spec fn getdnsservers_setting(output: Seq<char>) -> SettingModel {
    if has_infix(output, "aren't any DNS Servers"@) {
        SettingModel::Dhcp
    } else {
        setting_of(addresses_of(text_lines(output)))
    }
}

/// The setting that `networksetup -getdnsservers` printed.
pub fn parse_getdnsservers(output: &str) -> (r: DnsSetting)
    ensures
        r@ == getdnsservers_setting(output@),
{
    if contains_text(output, "aren't any DNS Servers") {
        return DnsSetting::Dhcp;
    }
    let servers = parse_addresses(&lines(output));
    if servers.len() == 0 {
        DnsSetting::Dhcp
    } else {
        DnsSetting::Static { servers }
    }
}

/// The texts of the addresses, in order.
pub open spec fn ip_texts(servers: Seq<IpAddr>) -> Seq<Seq<char>> {
    servers.map_values(|ip: IpAddr| ip_text(ip))
}

/// The arguments with which `networksetup` gives a service a setting.
pub open spec fn set_arguments(service: Seq<char>, setting: SettingModel) -> Seq<Seq<char>> {
    seq!["-setdnsservers"@, service] + match setting {
        SettingModel::Dhcp => seq!["Empty"@],
        SettingModel::Static(servers) => ip_texts(servers),
    }
}

/// The `networksetup` arguments that give `service` the setting.
pub fn restore_service(service: &str, setting: &DnsSetting) -> (r: Vec<String>)
    ensures
        texts(r@) == set_arguments(service@, setting@),
{
    let mut r: Vec<String> = Vec::new();
    r.push("-setdnsservers".to_owned());
    r.push(copy_of(service));
    match setting {
        DnsSetting::Dhcp => {
            r.push("Empty".to_owned());
            proof {
                assert(texts(r@) =~= set_arguments(service@, setting@));
            }
        },
        DnsSetting::Static { servers } => {
            let ghost head = seq!["-setdnsservers"@, service@];
            let mut i: usize = 0;
            proof {
                assert(texts(r@) =~= head + ip_texts(servers@.take(0)));
            }
            while i < servers.len()
                invariant
                    0 <= i <= servers.len(),
                    texts(r@) == head + ip_texts(servers@.take(i as int)),
                decreases servers.len() - i,
            {
                let t = ip_string(servers[i]);
                let ghost before = r@;
                let ghost text = t@;
                r.push(t);
                proof {
                    assert(texts(r@) =~= texts(before).push(text));
                    assert(ip_texts(servers@.take(i + 1)) =~= ip_texts(servers@.take(i as int)).push(
                        text,
                    ));
                    assert(texts(r@) =~= head + ip_texts(servers@.take(i + 1)));
                }
                i += 1;
            }
            proof {
                assert(servers@.take(i as int) =~= servers@);
            }
        },
    }
    r
}

/// What is shown of a command: what it wrote to its error stream, or else to its output.
pub open spec fn shown_output(stdout: Seq<char>, stderr: Seq<char>) -> Seq<char> {
    if stderr.len() == 0 {
        stdout
    } else {
        stderr
    }
}

/// The outcome of a `networksetup` call: its output, or an error that names the
/// arguments, the exit status and what it wrote.
pub fn networksetup_outcome(
    args: &Vec<String>,
    success: bool,
    status: &str,
    stdout: &str,
    stderr: &str,
) -> (r: Result<String, PlatformError>)
    ensures
        r is Ok <==> success,
        r matches Ok(s) ==> s@ == stdout@,
        r matches Err(e) ==> e@ == PlatformErrorModel::CommandFailed(
            "networksetup "@ + joined(texts(args@), " "@) + " exited "@ + status@ + ": "@
                + shown_output(stdout@, stderr@),
        ),
{
    if success {
        return Ok(copy_of(stdout));
    }
    let mut m = "networksetup ".to_owned();
    let a = join(args, " ");
    m.append(a.as_str());
    m.append(" exited ");
    m.append(status);
    m.append(": ");
    if stderr.is_empty() {
        m.append(stdout);
    } else {
        m.append(stderr);
    }
    Err(PlatformError::CommandFailed(m))
}

/// Whether `id -u` shows that DNS may be written: it printed zero, or it could not be
/// run to a successful end, in which case the write itself will tell.
pub fn check_root(uid_output: Option<&str>) -> (r: Result<(), PlatformError>)
    ensures
        r is Ok <==> (uid_output matches Some(s) ==> unsigned_value(trimmed(s@), 0xffff_ffff)
            == Some(0nat)),
        r matches Err(e) ==> e is NeedsRoot,
{
    match uid_output {
        Some(s) => {
            let t = trim(s);
            match parse_unsigned(t.as_str(), 0xffff_ffff) {
                Some(0) => Ok(()),
                _ => Err(PlatformError::NeedsRoot),
            }
        },
        None => Ok(()),
    }
}

// ── Laws ────────────────────────────────────────────────────────────────────

/// The text of an address holds no white space.
proof fn lemma_address_is_a_word(ip: IpAddr)
    ensures
        is_word(ip_text(ip)),
{
    lemma_address_text(ip);
    let s = ip_text(ip);
    assert forall|i: int| 0 <= i < s.len() implies !is_white(#[trigger] s[i]) by {
        assert(is_address_char(s[i]));
    }
}

/// The texts of addresses are read as the addresses.
pub proof fn lemma_addresses_of_texts(servers: Seq<IpAddr>)
    ensures
        addresses_of(ip_texts(servers)) == servers,
    decreases servers.len(),
{
    if servers.len() == 0 {
        assert(servers =~= Seq::<IpAddr>::empty());
    } else {
        let f = servers.drop_last();
        lemma_addresses_of_texts(f);
        assert(ip_texts(servers).drop_last() =~= ip_texts(f));
        lemma_address_is_a_word(servers.last());
        lemma_trimmed_word(ip_text(servers.last()));
        law_address_round_trip(servers.last());
        assert(f.push(servers.last()) =~= servers);
    }
}

/// A list of addresses, one on each line, is made of characters of addresses and line feeds.
proof fn lemma_listing_chars(servers: Seq<IpAddr>)
    ensures
        forall|i: int|
            0 <= i < joined(ip_texts(servers), seq!['\n']).len() ==> is_address_char(
                #[trigger] joined(ip_texts(servers), seq!['\n'])[i],
            ) || joined(ip_texts(servers), seq!['\n'])[i] == '\n',
    decreases servers.len(),
{
    if servers.len() > 0 {
        let f = servers.drop_last();
        lemma_listing_chars(f);
        lemma_address_text(servers.last());
        assert(ip_texts(servers).drop_last() =~= ip_texts(f));
        let s = joined(ip_texts(servers), seq!['\n']);
        let a = joined(ip_texts(f), seq!['\n']);
        let b = ip_text(servers.last());
        assert forall|i: int| 0 <= i < s.len() implies is_address_char(#[trigger] s[i]) || s[i]
            == '\n' by {
            if servers.len() == 1 {
                assert(s[i] == b[i]);
            } else if i < a.len() {
                assert(s[i] == a[i]);
            } else if i > a.len() {
                assert(s[i] == b[i - a.len() - 1]);
            }
        }
    }
}

/// The servers that a service was given are read back from a listing that shows them, one on
/// each line: what was found before a takeover is what a restore sets, and the next snapshot
/// finds the same.
pub proof fn law_static_servers_are_read_back(servers: Seq<IpAddr>)
    requires
        servers.len() > 0,
    ensures
        getdnsservers_setting(joined(ip_texts(servers), seq!['\n'])) == SettingModel::Static(servers),
{
    let parts = ip_texts(servers);
    let out = joined(parts, seq!['\n']);
    assert forall|i: int| 0 <= i < parts.len() implies is_word(#[trigger] parts[i]) by {
        lemma_address_is_a_word(servers[i]);
    }
    lemma_lines_of_words(parts);
    lemma_addresses_of_texts(servers);
    lemma_listing_chars(servers);
    let none = "aren't any DNS Servers"@;
    reveal_strlit("aren't any DNS Servers");
    if has_infix(out, none) {
        let i = choose|i: int| 0 <= i && #[trigger] infix_at(out, none, i);
        assert(none[1] == 'r');
        assert(out[i + 1] == 'r');
        assert(!is_address_char('r'));
    }
}

/// The command that restores a service names it, and behind its name the servers of the recorded
/// setting, each in a form that reads as its address, all of them and in order; a service that
/// was on DHCP is emptied.
pub proof fn law_the_recorded_servers_are_restored(
    service: &str,
    setting: &DnsSetting,
    args: Vec<String>,
    read: Vec<IpAddr>,
    behind: &Vec<String>,
)
    requires
        call_ensures(restore_service, (service, setting), args),
        behind@ == args@.skip(2),
        call_ensures(parse_addresses, (behind,), read),
    ensures
        args@.len() >= 2,
        args@[0]@ == "-setdnsservers"@,
        args@[1]@ == service@,
        *setting is Dhcp ==> args@.len() == 3 && args@[2]@ == "Empty"@,
        *setting matches DnsSetting::Static { servers } ==> args@.len() == servers@.len() + 2
            && read@ == servers@ && (forall|i: int|
            0 <= i < servers@.len() ==> ip_value(#[trigger] args@[i + 2]@) == Some(servers@[i])),
{
    let t = texts(args@);
    assert(t.len() == args@.len());
    assert(t[0] == args@[0]@ && t[1] == args@[1]@);
    match *setting {
        DnsSetting::Dhcp => {
            assert(t[2] == args@[2]@);
        },
        DnsSetting::Static { servers } => {
            assert(setting@ == SettingModel::Static(servers@));
            assert(t.skip(2) =~= ip_texts(servers@));
            assert(texts(behind@) =~= t.skip(2));
            lemma_addresses_of_texts(servers@);
            assert forall|i: int| 0 <= i < servers@.len() implies ip_value(#[trigger] args@[i + 2]@)
                == Some(servers@[i]) by {
                assert(t[i + 2] == ip_texts(servers@)[i]);
                law_address_round_trip(servers@[i]);
            }
        },
    }
}

/// What the restoring command asked for, listed back one server on each line, is read as the
/// setting that was recorded.
pub proof fn law_a_restored_service_reads_as_recorded(
    service: &str,
    setting: &DnsSetting,
    args: Vec<String>,
    output: &str,
    found: DnsSetting,
)
    requires
        call_ensures(restore_service, (service, setting), args),
        *setting matches DnsSetting::Static { servers } && servers@.len() > 0,
        output@ == joined(texts(args@).skip(2), seq!['\n']),
        call_ensures(parse_getdnsservers, (output,), found),
    ensures
        *setting matches DnsSetting::Static { servers } && (found matches DnsSetting::Static {
            servers: again,
        } && again@ == servers@),
{
    match *setting {
        DnsSetting::Dhcp => {},
        DnsSetting::Static { servers } => {
            assert(setting@ == SettingModel::Static(servers@));
            assert(texts(args@).skip(2) =~= ip_texts(servers@));
            law_static_servers_are_read_back(servers@);
            match found {
                DnsSetting::Dhcp => {},
                DnsSetting::Static { servers: again } => {
                    assert(found@ == SettingModel::Static(again@));
                },
            }
        },
    }
}

/// Commands that are the same restore the same service to the same setting.
pub proof fn law_different_settings_need_different_commands(
    service_a: &str,
    a: &DnsSetting,
    args_a: Vec<String>,
    service_b: &str,
    b: &DnsSetting,
    args_b: Vec<String>,
)
    requires
        call_ensures(restore_service, (service_a, a), args_a),
        call_ensures(restore_service, (service_b, b), args_b),
        texts(args_a@) == texts(args_b@),
    ensures
        service_a@ == service_b@,
        *a is Dhcp <==> *b is Dhcp,
        *a matches DnsSetting::Static { servers } ==> (*b matches DnsSetting::Static { servers: other }
            && servers@ == other@),
{
    let t = texts(args_a@);
    assert(t[1] == service_a@ && t[1] == service_b@);
    reveal_strlit("Empty");
    assert("Empty"@[1] == 'm');
    match (*a, *b) {
        (DnsSetting::Static { servers }, DnsSetting::Static { servers: other }) => {
            assert(a@ == SettingModel::Static(servers@));
            assert(b@ == SettingModel::Static(other@));
            assert(t.skip(2) =~= ip_texts(servers@));
            assert(t.skip(2) =~= ip_texts(other@));
            lemma_addresses_of_texts(servers@);
            lemma_addresses_of_texts(other@);
        },
        (DnsSetting::Static { servers }, DnsSetting::Dhcp) => {
            assert(a@ == SettingModel::Static(servers@));
            assert(t.len() == 3 && t[2] == "Empty"@);
            assert(t[2] == ip_texts(servers@)[0]);
            lemma_address_text(servers@[0]);
            assert(is_address_char(t[2][1]));
        },
        (DnsSetting::Dhcp, DnsSetting::Static { servers }) => {
            assert(b@ == SettingModel::Static(servers@));
            assert(t.len() == 3 && t[2] == "Empty"@);
            assert(t[2] == ip_texts(servers@)[0]);
            lemma_address_text(servers@[0]);
            assert(is_address_char(t[2][1]));
        },
        _ => {},
    }
}

/// A listing of no service names none, and each further line adds the service it names, without
/// the white space around it, unless it is the header, blank or marked as disabled.
pub proof fn law_enabled_services_are_listed_in_order(
    none: &str,
    nothing: Vec<String>,
    output: &str,
    listed: Vec<String>,
    more: &str,
    all: Vec<String>,
    line: Seq<char>,
)
    requires
        text_lines(none@).len() == 0,
        text_lines(more@) == text_lines(output@).push(line),
        call_ensures(parse_list_all_network_services, (none,), nothing),
        call_ensures(parse_list_all_network_services, (output,), listed),
        call_ensures(parse_list_all_network_services, (more,), all),
    ensures
        nothing@.len() == 0,
        has_prefix(line, "An "@) || has_prefix(line, "*"@) || trimmed(line).len() == 0 ==> texts(
            all@,
        ) == texts(listed@),
        !has_prefix(line, "An "@) && !has_prefix(line, "*"@) && trimmed(line).len() > 0 ==> texts(
            all@,
        ) == texts(listed@).push(trimmed(line)),
{
    assert(texts(nothing@).len() == nothing@.len());
    assert(text_lines(more@).drop_last() =~= text_lines(output@));
    assert(text_lines(more@).last() == line);
}

/// A listing of servers is read line by line: each line that spells an address adds it behind
/// the others, and any other line adds nothing.
pub proof fn law_listed_servers_are_read_in_order(
    lines: &Vec<String>,
    listed: Vec<IpAddr>,
    more: &Vec<String>,
    all: Vec<IpAddr>,
    line: String,
)
    requires
        more@ == lines@.push(line),
        call_ensures(parse_addresses, (lines,), listed),
        call_ensures(parse_addresses, (more,), all),
    ensures
        lines@.len() == 0 ==> listed@.len() == 0,
        ip_value(trimmed(line@)) matches Some(ip) ==> all@ == listed@.push(ip),
        ip_value(trimmed(line@)) is None ==> all@ == listed@,
{
    assert(texts(more@).drop_last() =~= texts(lines@));
    assert(texts(more@).last() == line@);
}

/// A service is on DHCP just where the listing says that it has no servers or shows no address;
/// otherwise its servers are those shown.
pub proof fn law_a_listing_without_servers_means_dhcp(output: &str, found: DnsSetting, shown: Vec<IpAddr>, ls: &Vec<String>)
    requires
        call_ensures(parse_getdnsservers, (output,), found),
        call_ensures(lines, (output,), *ls),
        call_ensures(parse_addresses, (ls,), shown),
    ensures
        found is Dhcp <==> has_infix(output@, "aren't any DNS Servers"@) || shown@.len() == 0,
        found matches DnsSetting::Static { servers } ==> servers@ == shown@,
{
    match found {
        DnsSetting::Dhcp => {},
        DnsSetting::Static { servers } => assert(found@ == SettingModel::Static(servers@)),
    }
}

/// A command that succeeded gives what it printed; one that failed gives an error that tells its
/// arguments, its status and what it wrote to its error stream, or else what it printed.
pub proof fn law_failed_commands_are_reported(
    args: &Vec<String>,
    success: bool,
    status: &str,
    stdout: &str,
    stderr: &str,
    r: Result<String, PlatformError>,
)
    requires
        call_ensures(networksetup_outcome, (args, success, status, stdout, stderr), r),
    ensures
        success ==> (r matches Ok(s) && s@ == stdout@),
        !success && stderr@.len() > 0 ==> (r matches Err(PlatformError::CommandFailed(m)) && m@
            == "networksetup "@ + joined(texts(args@), " "@) + " exited "@ + status@ + ": "@ + stderr@),
        !success && stderr@.len() == 0 ==> (r matches Err(PlatformError::CommandFailed(m)) && m@
            == "networksetup "@ + joined(texts(args@), " "@) + " exited "@ + status@ + ": "@ + stdout@),
{
}

/// Only a user id that was read and is not zero keeps DNS from being written.
pub proof fn law_only_root_may_write(uid: Option<&str>, r: Result<(), PlatformError>)
    requires
        call_ensures(check_root, (uid,), r),
    ensures
        uid is None ==> r is Ok,
        uid matches Some(s) ==> (r is Ok <==> unsigned_value(trimmed(s@), u32::MAX as nat) == Some(0nat)),
        r is Err ==> r->Err_0 is NeedsRoot,
{
}

}

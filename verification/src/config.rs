//! The client configuration: the settings it draws on and the document
//! rendered from a peer.

use crate::error::ProvisionError;
use crate::ini::{
    document, entry_line, entry_lines, has_section, ini_from_text, ini_parsed, ini_value,
    MAX_SOURCE_LENGTH,
    put_entry, put_key, section_text, Entry, Section,
};
use crate::peer::{Peer, PeerView};
use crate::text::{copy_text, text_of};
use configparser::ini::Ini;
use vstd::prelude::*;
use vstd::string::*;

verus! {

/// The interface-level settings that a rendered configuration draws on.
/// Each is optional; `subnet`, `dns` and `keepalive` have defaults.
#[derive(Debug, PartialEq, Eq)]
pub struct Settings {
    /// Prefix length written after the peer's address; 16 by default.
    pub subnet: Option<String>,
    /// DNS server; 8.8.8.8 by default.
    pub dns: Option<String>,
    /// Public key of the serving peer.
    pub server_public_key: Option<String>,
    /// Host and port that the client connects to.
    pub endpoint: Option<String>,
    /// Persistent-keepalive interval in seconds; 25 by default.
    pub keepalive: Option<String>,
}

/// Settings with their texts as sequences of characters.
pub struct SettingsView {
    pub subnet: Option<Seq<char>>,
    pub dns: Option<Seq<char>>,
    pub server_public_key: Option<Seq<char>>,
    pub endpoint: Option<Seq<char>>,
    pub keepalive: Option<Seq<char>>,
}

impl View for Settings {
    type V = SettingsView;

    open spec fn view(&self) -> SettingsView {
        SettingsView {
            subnet: text_of(self.subnet),
            dns: text_of(self.dns),
            server_public_key: text_of(self.server_public_key),
            endpoint: text_of(self.endpoint),
            keepalive: text_of(self.keepalive),
        }
    }
}

/// What parsing a settings source gives: the source, or `ConfigRead` where
/// the text is malformed. A text of more than `MAX_SOURCE_LENGTH`
/// characters counts as malformed and is not parsed.
pub open spec fn source_in(text: Seq<char>) -> Result<Ini, ProvisionError> {
    if text.len() > MAX_SOURCE_LENGTH {
        Err(ProvisionError::ConfigRead)
    } else {
        match ini_parsed(text) {
            Some(conf) => Ok(conf),
            None => Err(ProvisionError::ConfigRead),
        }
    }
}

/// Parses the text of a settings source.
pub fn parse_source(text: String) -> (result: Result<Ini, ProvisionError>)
    ensures
        result == source_in(text@),
        text@.len() > MAX_SOURCE_LENGTH ==> result == Err::<Ini, ProvisionError>(
            ProvisionError::ConfigRead,
        ),
{
    if text.as_str().unicode_len() > MAX_SOURCE_LENGTH {
        return Err(ProvisionError::ConfigRead);
    }
    match ini_from_text(text) {
        Some(conf) => Ok(conf),
        None => Err(ProvisionError::ConfigRead),
    }
}

/// The settings that a settings source holds: section `Peer`, keys `Subnet`,
/// `DNS`, `Key`, `Endpoint` and `KeepAlive`.
pub open spec fn settings_in(conf: Ini) -> SettingsView {
    SettingsView {
        subnet: ini_value(conf, "Peer"@, "Subnet"@),
        dns: ini_value(conf, "Peer"@, "DNS"@),
        server_public_key: ini_value(conf, "Peer"@, "Key"@),
        endpoint: ini_value(conf, "Peer"@, "Endpoint"@),
        keepalive: ini_value(conf, "Peer"@, "KeepAlive"@),
    }
}

/// Reads the settings from a settings source.
pub fn read_settings(conf: &Ini) -> (settings: Settings)
    ensures
        settings@ == settings_in(*conf),
{
    Settings {
        subnet: conf.get("Peer", "Subnet"),
        dns: conf.get("Peer", "DNS"),
        server_public_key: conf.get("Peer", "Key"),
        endpoint: conf.get("Peer", "Endpoint"),
        keepalive: conf.get("Peer", "KeepAlive"),
    }
}

/// A setting's value, or the default where the setting is absent.
pub open spec fn or_default(value: Option<Seq<char>>, default: Seq<char>) -> Seq<char> {
    match value {
        Some(v) => v,
        None => default,
    }
}

/// The interface address as the configuration states it: the peer's
/// address, a slash and the prefix length.
pub open spec fn interface_address(peer: PeerView, settings: SettingsView) -> Seq<char> {
    peer.ip->0.dotted() + seq!['/'] + or_default(settings.subnet, "16"@)
}

/// The sections of a peer's configuration: the local interface, then the
/// serving peer, which is allowed all traffic.
pub open spec fn config_sections(peer: PeerView, settings: SettingsView) -> Seq<Section> {
    seq![
        (
            "Interface"@,
            seq![
                ("PrivateKey"@, peer.private_key),
                ("Address"@, Some(interface_address(peer, settings))),
                ("DNS"@, Some(or_default(settings.dns, "8.8.8.8"@))),
            ],
        ),
        (
            "Peer"@,
            seq![
                ("PublicKey"@, settings.server_public_key),
                ("Endpoint"@, settings.endpoint),
                ("AllowedIPs"@, Some("0.0.0.0/0"@)),
                ("PersistentKeepalive"@, Some(or_default(settings.keepalive, "25"@))),
            ],
        ),
    ]
}

/// The text of a peer's configuration.
pub open spec fn rendered(peer: PeerView, settings: SettingsView) -> Seq<char> {
    document(config_sections(peer, settings))
}

fn setting_or(value: &Option<String>, default: &str) -> (text: String)
    ensures
        text@ == or_default(text_of(*value), default@),
{
    match value {
        Some(v) => v.clone(),
        None => String::from_str(default),
    }
}

/// Renders the configuration of a peer that has its private key and its
/// address.
pub fn render(peer: &Peer, settings: &Settings) -> (text: String)
    requires
        peer.private_key is Some,
        peer.ip is Some,
    ensures
        text@ == rendered(peer@, settings@),
{
    let mut address = peer.ip.unwrap().text();
    address.append("/");
    address.append(setting_or(&settings.subnet, "16").as_str());
    let dns = setting_or(&settings.dns, "8.8.8.8");
    let keepalive = setting_or(&settings.keepalive, "25");
    let ghost address_text = address@;

    let mut config = Ini::new_cs();
    config.set("Interface", "PrivateKey", copy_text(&peer.private_key));
    config.set("Interface", "Address", Some(address));
    config.set("Interface", "DNS", Some(dns));
    config.set("Peer", "PublicKey", copy_text(&settings.server_public_key));
    config.set("Peer", "Endpoint", copy_text(&settings.endpoint));
    config.set("Peer", "AllowedIPs", Some(String::from_str("0.0.0.0/0")));
    config.set("Peer", "PersistentKeepalive", Some(keepalive));
    proof {
        reveal_strlit("/");
        assert(address_text =~= interface_address(peer@, settings@));
        lemma_sections_filled(peer@, settings@);
        lemma_no_default_section(peer@, settings@);
    }
    config.writes()
}

/// A rendered configuration and the path of the file that is to hold it.
#[derive(Debug, PartialEq, Eq)]
pub struct Artifact {
    pub path: String,
    pub content: String,
}

/// The path of a user's configuration file: `<home>/<username>.conf`.
pub open spec fn config_path(home: Seq<char>, username: Seq<char>) -> Seq<char> {
    home + seq!['/'] + username + ".conf"@
}

/// Renders the configuration of a peer from a settings source and names the
/// file for it under the given home directory. The peer must have its
/// private key and its address.
pub fn gen_conf(peer: &Peer, conf: &Ini, home: &str) -> (artifact: Artifact)
    requires
        peer.private_key is Some,
        peer.ip is Some,
    ensures
        artifact.path@ == config_path(home@, peer@.username),
        artifact.content@ == rendered(peer@, settings_in(*conf)),
{
    let settings = read_settings(conf);
    let content = render(peer, &settings);
    let mut path = String::from_str(home);
    path.append("/");
    path.append(peer.username.as_str());
    path.append(".conf");
    proof {
        reveal_strlit("/");
        assert(path@ =~= config_path(home@, peer@.username));
    }
    Artifact { path, content }
}

/// The line that opens a section.
pub open spec fn header(name: Seq<char>) -> Seq<char> {
    seq!['['] + name + seq![']', '\n']
}

/// The line of a key with a value.
pub open spec fn line(key: Seq<char>, value: Seq<char>) -> Seq<char> {
    key + seq!['='] + value + seq!['\n']
}

/// The rendered configuration, line by line: the interface section with
/// private key, address and DNS server, then the peer section with the
/// server's public key, the endpoint, the catch-all range of allowed
/// addresses and the keepalive interval.
pub proof fn lemma_render_layout(peer: PeerView, settings: SettingsView)
    requires
        peer.private_key is Some,
        peer.ip is Some,
    ensures
        rendered(peer, settings) == header("Interface"@) + line(
            "PrivateKey"@,
            peer.private_key->0,
        ) + line("Address"@, peer.ip->0.dotted() + seq!['/'] + or_default(settings.subnet, "16"@))
            + line("DNS"@, or_default(settings.dns, "8.8.8.8"@)) + header("Peer"@) + entry_line(
            ("PublicKey"@, settings.server_public_key),
        ) + entry_line(("Endpoint"@, settings.endpoint)) + line("AllowedIPs"@, "0.0.0.0/0"@) + line(
            "PersistentKeepalive"@,
            or_default(settings.keepalive, "25"@),
        ),
{
    let sections = config_sections(peer, settings);
    let interface = sections[0];
    let server = sections[1];
    reveal_with_fuel(document, 3);
    reveal_with_fuel(entry_lines, 5);
    assert(sections.drop_last() =~= seq![interface]);
    assert(sections.drop_last().drop_last() =~= Seq::<Section>::empty());
    assert(document(sections) =~= section_text(interface) + section_text(server));
    let local = interface.1;
    assert(local.drop_last() =~= seq![local[0], local[1]]);
    assert(local.drop_last().drop_last() =~= seq![local[0]]);
    assert(local.drop_last().drop_last().drop_last() =~= Seq::<Entry>::empty());
    assert(entry_lines(local) =~= entry_line(local[0]) + entry_line(local[1]) + entry_line(
        local[2],
    ));
    let remote = server.1;
    assert(remote.drop_last() =~= seq![remote[0], remote[1], remote[2]]);
    assert(remote.drop_last().drop_last() =~= seq![remote[0], remote[1]]);
    assert(remote.drop_last().drop_last().drop_last() =~= seq![remote[0]]);
    assert(remote.drop_last().drop_last().drop_last().drop_last() =~= Seq::<Entry>::empty());
    assert(entry_lines(remote) =~= entry_line(remote[0]) + entry_line(remote[1]) + entry_line(
        remote[2],
    ) + entry_line(remote[3]));
    assert(rendered(peer, settings) =~= header("Interface"@) + line(
        "PrivateKey"@,
        peer.private_key->0,
    ) + line("Address"@, peer.ip->0.dotted() + seq!['/'] + or_default(settings.subnet, "16"@))
        + line("DNS"@, or_default(settings.dns, "8.8.8.8"@)) + header("Peer"@) + entry_line(
        ("PublicKey"@, settings.server_public_key),
    ) + entry_line(("Endpoint"@, settings.endpoint)) + line("AllowedIPs"@, "0.0.0.0/0"@) + line(
        "PersistentKeepalive"@,
        or_default(settings.keepalive, "25"@),
    ));
}

/// Where the settings source gives no prefix length, DNS server or
/// keepalive interval, the configuration states the peer's address with
/// prefix length 16, the DNS server 8.8.8.8 and a keepalive of 25 seconds.
pub proof fn lemma_render_defaults(peer: PeerView, settings: SettingsView)
    requires
        peer.private_key is Some,
        peer.ip is Some,
        settings.subnet is None,
        settings.dns is None,
        settings.keepalive is None,
    ensures
        rendered(peer, settings) == header("Interface"@) + line(
            "PrivateKey"@,
            peer.private_key->0,
        ) + line("Address"@, peer.ip->0.dotted() + seq!['/', '1', '6']) + line(
            "DNS"@,
            seq!['8', '.', '8', '.', '8', '.', '8'],
        ) + header("Peer"@) + entry_line(("PublicKey"@, settings.server_public_key)) + entry_line(
            ("Endpoint"@, settings.endpoint),
        ) + line("AllowedIPs"@, "0.0.0.0/0"@) + line("PersistentKeepalive"@, seq!['2', '5']),
{
    lemma_render_layout(peer, settings);
    reveal_strlit("16");
    reveal_strlit("8.8.8.8");
    reveal_strlit("25");
    assert("16"@ =~= seq!['1', '6']);
    assert("8.8.8.8"@ =~= seq!['8', '.', '8', '.', '8', '.', '8']);
    assert("25"@ =~= seq!['2', '5']);
}

/// Rendering depends on nothing but the peer, the settings and the home
/// directory: `render` and `gen_conf` give `rendered` and `config_path` of
/// these, so the same inputs give the same path and the same content.
pub proof fn lemma_render_deterministic(
    first: PeerView,
    second: PeerView,
    first_settings: SettingsView,
    second_settings: SettingsView,
    home: Seq<char>,
)
    requires
        first == second,
        first_settings == second_settings,
    ensures
        rendered(first, first_settings) == rendered(second, second_settings),
        config_path(home, first.username) == config_path(home, second.username),
{
}

/// A key that the entries lack goes last.
proof fn lemma_put_new_key(entries: Seq<Entry>, key: Seq<char>, value: Option<Seq<char>>)
    requires
        forall|i: int| 0 <= i < entries.len() ==> (#[trigger] entries[i]).0 != key,
    ensures
        put_key(entries, key, value) == entries.push((key, value)),
    decreases entries.len(),
{
    if entries.len() == 0 {
        assert(put_key(entries, key, value) =~= entries.push((key, value)));
    } else {
        let rest = entries.drop_first();
        assert(entries[0].0 != key);
        assert forall|i: int| 0 <= i < rest.len() implies (#[trigger] rest[i]).0 != key by {
            assert(rest[i] == entries[i + 1]);
        }
        lemma_put_new_key(rest, key, value);
        assert(seq![entries[0]] + rest.push((key, value)) =~= entries.push((key, value)));
    }
}

/// A section that the sections lack goes last, with the one entry.
proof fn lemma_put_new_section(
    sections: Seq<Section>,
    section: Seq<char>,
    key: Seq<char>,
    value: Option<Seq<char>>,
)
    requires
        forall|i: int| 0 <= i < sections.len() ==> (#[trigger] sections[i]).0 != section,
    ensures
        put_entry(sections, section, key, value) == sections.push((section, seq![(key, value)])),
    decreases sections.len(),
{
    let added = (section, seq![(key, value)]);
    if sections.len() == 0 {
        assert(put_entry(sections, section, key, value) =~= sections.push(added));
    } else {
        let rest = sections.drop_first();
        assert(sections[0].0 != section);
        assert forall|i: int| 0 <= i < rest.len() implies (#[trigger] rest[i]).0 != section by {
            assert(rest[i] == sections[i + 1]);
        }
        lemma_put_new_section(rest, section, key, value);
        assert(seq![sections[0]] + rest.push(added) =~= sections.push(added));
    }
}

/// A key for the last section, where no earlier section has that name,
/// changes the last section only.
proof fn lemma_put_in_last_section(
    sections: Seq<Section>,
    key: Seq<char>,
    value: Option<Seq<char>>,
)
    requires
        sections.len() > 0,
        forall|i: int|
            0 <= i < sections.len() - 1 ==> (#[trigger] sections[i]).0 != sections.last().0,
    ensures
        put_entry(sections, sections.last().0, key, value) == sections.drop_last().push(
            (sections.last().0, put_key(sections.last().1, key, value)),
        ),
    decreases sections.len(),
{
    let name = sections.last().0;
    let changed = (name, put_key(sections.last().1, key, value));
    if sections.len() == 1 {
        assert(sections.drop_first() =~= Seq::<Section>::empty());
        assert(put_entry(sections, name, key, value) =~= sections.drop_last().push(changed));
    } else {
        let rest = sections.drop_first();
        assert(sections[0].0 != name);
        assert(rest.last() == sections.last());
        assert forall|i: int| 0 <= i < rest.len() - 1 implies (#[trigger] rest[i]).0
            != rest.last().0 by {
            assert(rest[i] == sections[i + 1]);
        }
        lemma_put_in_last_section(rest, key, value);
        assert(seq![sections[0]] + rest.drop_last().push(changed) =~= sections.drop_last().push(
            changed,
        ));
    }
}

/// The names that the configuration uses differ from one another.
proof fn lemma_names_differ()
    ensures
        "Interface"@ != "Peer"@,
        "Interface"@ != "default"@,
        "Peer"@ != "default"@,
        "PrivateKey"@ != "Address"@,
        "PrivateKey"@ != "DNS"@,
        "Address"@ != "DNS"@,
        "PublicKey"@ != "Endpoint"@,
        "PublicKey"@ != "AllowedIPs"@,
        "PublicKey"@ != "PersistentKeepalive"@,
        "Endpoint"@ != "AllowedIPs"@,
        "Endpoint"@ != "PersistentKeepalive"@,
        "AllowedIPs"@ != "PersistentKeepalive"@,
{
    reveal_strlit("Interface");
    reveal_strlit("Peer");
    reveal_strlit("default");
    reveal_strlit("PrivateKey");
    reveal_strlit("Address");
    reveal_strlit("DNS");
    reveal_strlit("PublicKey");
    reveal_strlit("Endpoint");
    reveal_strlit("AllowedIPs");
    reveal_strlit("PersistentKeepalive");
    assert("Interface"@.len() == 9);
    assert("Peer"@.len() == 4);
    assert("default"@.len() == 7);
    assert("PrivateKey"@.len() == 10);
    assert("Address"@.len() == 7);
    assert("DNS"@.len() == 3);
    assert("PublicKey"@.len() == 9);
    assert("Endpoint"@.len() == 8);
    assert("AllowedIPs"@.len() == 10);
    assert("PersistentKeepalive"@.len() == 19);
}

/// Filling an empty configuration key by key gives the sections of the
/// peer's configuration.
proof fn lemma_sections_filled(peer: PeerView, settings: SettingsView)
    ensures
        config_sections(peer, settings) == {
            let s0 = Seq::<Section>::empty();
            let s1 = put_entry(s0, "Interface"@, "PrivateKey"@, peer.private_key);
            let s2 = put_entry(
                s1,
                "Interface"@,
                "Address"@,
                Some(interface_address(peer, settings)),
            );
            let s3 = put_entry(
                s2,
                "Interface"@,
                "DNS"@,
                Some(or_default(settings.dns, "8.8.8.8"@)),
            );
            let s4 = put_entry(s3, "Peer"@, "PublicKey"@, settings.server_public_key);
            let s5 = put_entry(s4, "Peer"@, "Endpoint"@, settings.endpoint);
            let s6 = put_entry(s5, "Peer"@, "AllowedIPs"@, Some("0.0.0.0/0"@));
            put_entry(
                s6,
                "Peer"@,
                "PersistentKeepalive"@,
                Some(or_default(settings.keepalive, "25"@)),
            )
        },
{
    lemma_names_differ();
    let address = Some(interface_address(peer, settings));
    let dns = Some(or_default(settings.dns, "8.8.8.8"@));
    let allowed = Some("0.0.0.0/0"@);
    let keepalive = Some(or_default(settings.keepalive, "25"@));
    let private_key: Entry = ("PrivateKey"@, peer.private_key);
    let public_key: Entry = ("PublicKey"@, settings.server_public_key);
    let endpoint: Entry = ("Endpoint"@, settings.endpoint);

    let s0 = Seq::<Section>::empty();
    let s1 = put_entry(s0, "Interface"@, "PrivateKey"@, peer.private_key);
    let local1 = seq![private_key];
    lemma_put_new_section(s0, "Interface"@, "PrivateKey"@, peer.private_key);
    assert(s1 =~= seq![("Interface"@, local1)]);

    let s2 = put_entry(s1, "Interface"@, "Address"@, address);
    let local2 = seq![private_key, ("Address"@, address)];
    lemma_put_in_last_section(s1, "Address"@, address);
    lemma_put_new_key(local1, "Address"@, address);
    assert(local1.push(("Address"@, address)) =~= local2);
    assert(s2 =~= seq![("Interface"@, local2)]);

    let s3 = put_entry(s2, "Interface"@, "DNS"@, dns);
    let local3 = seq![private_key, ("Address"@, address), ("DNS"@, dns)];
    lemma_put_in_last_section(s2, "DNS"@, dns);
    lemma_put_new_key(local2, "DNS"@, dns);
    assert(local2.push(("DNS"@, dns)) =~= local3);
    assert(s3 =~= seq![("Interface"@, local3)]);

    let s4 = put_entry(s3, "Peer"@, "PublicKey"@, settings.server_public_key);
    let remote1 = seq![public_key];
    lemma_put_new_section(s3, "Peer"@, "PublicKey"@, settings.server_public_key);
    assert(s4 =~= seq![("Interface"@, local3), ("Peer"@, remote1)]);

    let s5 = put_entry(s4, "Peer"@, "Endpoint"@, settings.endpoint);
    let remote2 = seq![public_key, endpoint];
    lemma_put_in_last_section(s4, "Endpoint"@, settings.endpoint);
    lemma_put_new_key(remote1, "Endpoint"@, settings.endpoint);
    assert(remote1.push(endpoint) =~= remote2);
    assert(s5 =~= seq![("Interface"@, local3), ("Peer"@, remote2)]);

    let s6 = put_entry(s5, "Peer"@, "AllowedIPs"@, allowed);
    let remote3 = seq![public_key, endpoint, ("AllowedIPs"@, allowed)];
    lemma_put_in_last_section(s5, "AllowedIPs"@, allowed);
    lemma_put_new_key(remote2, "AllowedIPs"@, allowed);
    assert(remote2.push(("AllowedIPs"@, allowed)) =~= remote3);
    assert(s6 =~= seq![("Interface"@, local3), ("Peer"@, remote3)]);

    let s7 = put_entry(s6, "Peer"@, "PersistentKeepalive"@, keepalive);
    let remote4 = seq![
        public_key,
        endpoint,
        ("AllowedIPs"@, allowed),
        ("PersistentKeepalive"@, keepalive),
    ];
    lemma_put_in_last_section(s6, "PersistentKeepalive"@, keepalive);
    lemma_put_new_key(remote3, "PersistentKeepalive"@, keepalive);
    assert(remote3.push(("PersistentKeepalive"@, keepalive)) =~= remote4);
    assert(s7 =~= seq![("Interface"@, local3), ("Peer"@, remote4)]);
    assert(config_sections(peer, settings) =~= s7);
}

/// Neither section of a peer's configuration is called `default`.
proof fn lemma_no_default_section(peer: PeerView, settings: SettingsView)
    ensures
        !has_section(config_sections(peer, settings), "default"@),
{
    lemma_names_differ();
}

} // verus!

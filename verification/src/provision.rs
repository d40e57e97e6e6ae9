//! Provisioning of nodes: the configured backends, what they are told and what they report.

use vstd::prelude::*;
use vstd::string::*;
use vstd::utf8::*;
use crate::bytes::byte_range;
use crate::control::{says, says_at, ControlRequest};
use crate::histogram::{duration_ms, whole_ms};
use crate::text::{
    contains_text, decimal, decimal_text, occurs_in, replace_char, replaced, same_text, trim,
    trimmed, view_of_str, views,
};

verus! {

/// How many bytes of a command's output are reported.
pub const OUTPUT_LIMIT: usize = 160;

/// The status of one backend.
#[derive(Debug)]
pub struct ProvisionBackendStatus {
    pub name: String,
    pub state: &'static str,
    pub details: Vec<String>,
}

/// The status of one backend.
#[verifier::ext_equal]
pub struct BackendModel {
    pub name: Seq<char>,
    pub state: Seq<char>,
    pub details: Seq<Seq<char>>,
}

impl View for ProvisionBackendStatus {
    type V = BackendModel;

    open spec fn view(&self) -> BackendModel {
        BackendModel { name: self.name@, state: self.state@, details: views(self.details@) }
    }
}

/// The statuses of a list of backends.
pub open spec fn backend_views(list: Seq<ProvisionBackendStatus>) -> Seq<BackendModel> {
    list.map_values(|b: ProvisionBackendStatus| b@)
}

/// The status of provisioning.
#[derive(Debug)]
pub struct ProvisionStatus {
    pub enabled: bool,
    pub backends: Vec<String>,
    pub timeout_ms: u64,
    pub backend_statuses: Vec<ProvisionBackendStatus>,
}

/// How nodes are provisioned at the hosting provider.
#[derive(Debug)]
pub struct LinodeProvisionConfig {
    pub token_env: String,
    pub pub_key_env: String,
    pub image_id: String,
    pub instance_type: String,
    pub domain_id: u64,
    pub vlan_tag: String,
    /// The provider's region for a region of the mesh, each region of the mesh once.
    pub region_map: Vec<(String, String)>,
}

/// The value of the last pair with a key.
pub open spec fn pair_value(pairs: Seq<(String, String)>, key: Seq<char>) -> Option<Seq<char>>
    decreases pairs.len(),
{
    if pairs.len() == 0 {
        None
    } else if pairs.last().0@ == key {
        Some(pairs.last().1@)
    } else {
        pair_value(pairs.drop_last(), key)
    }
}

/// Whether no key occurs twice.
pub open spec fn distinct_pairs(pairs: Seq<(String, String)>) -> bool {
    forall|i: int, j: int|
        0 <= i < j < pairs.len() ==> (#[trigger] pairs[i]).0@ != (#[trigger] pairs[j]).0@
}

proof fn lemma_pair_at(pairs: Seq<(String, String)>, i: int)
    requires
        0 <= i < pairs.len(),
        forall|j: int| i < j < pairs.len() ==> (#[trigger] pairs[j]).0@ != pairs[i].0@,
    ensures
        pair_value(pairs, pairs[i].0@) == Some(pairs[i].1@),
    decreases pairs.len(),
{
    if i < pairs.len() - 1 {
        assert(pairs[pairs.len() - 1].0@ != pairs[i].0@);
        assert(pairs.drop_last()[i] == pairs[i]);
        lemma_pair_at(pairs.drop_last(), i);
    }
}

proof fn lemma_pair_absent(pairs: Seq<(String, String)>, key: Seq<char>)
    requires
        forall|j: int| 0 <= j < pairs.len() ==> (#[trigger] pairs[j]).0@ != key,
    ensures
        pair_value(pairs, key) is None,
    decreases pairs.len(),
{
    if pairs.len() > 0 {
        assert(pairs[pairs.len() - 1].0@ != key);
        assert forall|j: int| 0 <= j < pairs.drop_last().len() implies (
        #[trigger] pairs.drop_last()[j]).0@ != key by {
            assert(pairs[j].0@ != key);
        }
        lemma_pair_absent(pairs.drop_last(), key);
    }
}

proof fn lemma_pair_found(pairs: Seq<(String, String)>, key: Seq<char>) -> (i: int)
    requires
        pair_value(pairs, key) is Some,
    ensures
        0 <= i < pairs.len(),
        pairs[i].0@ == key,
        pairs[i].1@ == pair_value(pairs, key)->0,
    decreases pairs.len(),
{
    if pairs.last().0@ == key {
        pairs.len() - 1
    } else {
        lemma_pair_found(pairs.drop_last(), key)
    }
}

/// Collects pairs into a map: of pairs with the same key the last one counts.
pub fn collect_region_map(pairs: &Vec<(String, String)>) -> (r: Vec<(String, String)>)
    ensures
        distinct_pairs(r@),
        forall|key: Seq<char>| #[trigger] pair_value(r@, key) == pair_value(pairs@, key),
{
    let mut out: Vec<(String, String)> = Vec::new();
    let mut i: usize = 0;
    proof {
        assert(pairs@.take(0) =~= Seq::<(String, String)>::empty());
        assert(out@ =~= pairs@.take(0));
    }
    while i < pairs.len()
        invariant
            i <= pairs.len(),
            distinct_pairs(out@),
            forall|key: Seq<char>| #[trigger]
                pair_value(out@, key) == pair_value(pairs@.take(i as int), key),
        decreases pairs.len() - i,
    {
        let ghost before = out@;
        let ghost pair = pairs@[i as int];
        let mut p: usize = 0;
        while p < out.len() && !same_text(out[p].0.as_str(), pairs[i].0.as_str())
            invariant
                i < pairs.len(),
                p <= out.len(),
                forall|j: int| 0 <= j < p ==> (#[trigger] out@[j]).0@ != pairs@[i as int].0@,
            decreases out.len() - p,
        {
            p = p + 1;
        }
        if p < out.len() {
            let value = pairs[i].1.clone();
            let key = pairs[i].0.clone();
            out[p] = (key, value);
            proof {
                assert(out@ == before.update(p as int, pair));
                assert forall|a: int, b: int| 0 <= a < b < out@.len() implies (
                #[trigger] out@[a]).0@ != (#[trigger] out@[b]).0@ by {
                    assert(before[a].0@ != before[b].0@);
                }
            }
        } else {
            out.push((pairs[i].0.clone(), pairs[i].1.clone()));
            proof {
                assert(out@ == before.push(pair));
                assert forall|a: int, b: int| 0 <= a < b < out@.len() implies (
                #[trigger] out@[a]).0@ != (#[trigger] out@[b]).0@ by {
                    if b < before.len() {
                        assert(before[a].0@ != before[b].0@);
                    } else {
                        assert(out@[a] == before[a]);
                    }
                }
            }
        }
        proof {
            let t = pairs@.take(i + 1);
            assert(t.drop_last() =~= pairs@.take(i as int));
            assert(t.last() == pair);
            assert forall|key: Seq<char>| #[trigger] pair_value(out@, key) == pair_value(t, key) by {
                if key == pair.0@ {
                    assert(out@[p as int].0@ == key);
                    assert forall|j: int| p < j < out@.len() implies (#[trigger] out@[j]).0@
                        != out@[p as int].0@ by {}
                    lemma_pair_at(out@, p as int);
                } else {
                    assert(pair_value(t, key) == pair_value(before, key));
                    if pair_value(before, key) is Some {
                        let k = lemma_pair_found(before, key);
                        assert(k != p);
                        assert(out@[k] == before[k]);
                        assert forall|j: int| k < j < out@.len() implies (#[trigger] out@[j]).0@
                            != out@[k].0@ by {}
                        lemma_pair_at(out@, k);
                    } else {
                        assert forall|j: int| 0 <= j < out@.len() implies (#[trigger] out@[j]).0@
                            != key by {
                            if j < before.len() && j != p {
                                assert(out@[j] == before[j]);
                                if before[j].0@ == key {
                                    assert forall|m: int| j < m < before.len() implies (
                                    #[trigger] before[m]).0@ != before[j].0@ by {}
                                    lemma_pair_at(before, j);
                                }
                            }
                        }
                        lemma_pair_absent(out@, key);
                    }
                }
            }
        }
        i = i + 1;
    }
    proof {
        assert(pairs@.take(i as int) =~= pairs@);
    }
    out
}

/// The word for something that is there or not.
pub open spec fn presence(present: bool) -> Seq<char> {
    if present {
        "present"@
    } else {
        "missing"@
    }
}

/// The details of the provider's backend.
pub open spec fn linode_details(
    config: LinodeProvisionConfig,
    token_present: bool,
    pub_key_present: bool,
) -> Seq<Seq<char>> {
    seq![
        "token env "@ + config.token_env@ + " "@ + presence(token_present),
        "public key env "@ + config.pub_key_env@ + " "@ + presence(pub_key_present),
        "image "@ + config.image_id@,
        "type "@ + config.instance_type@,
        "domain "@ + decimal(config.domain_id as nat),
        "private vlan "@ + config.vlan_tag@,
        if config.region_map@.len() == 0 {
            "region map empty"@
        } else {
            decimal(config.region_map@.len()) + " region map entries"@
        },
    ]
}

/// The status of the provider's backend: ready once both secrets are there.
pub open spec fn linode_status(
    config: LinodeProvisionConfig,
    token_present: bool,
    pub_key_present: bool,
) -> BackendModel {
    BackendModel {
        name: "linode"@,
        state: if token_present && pub_key_present {
            "ready"@
        } else {
            "blocked"@
        },
        details: linode_details(config, token_present, pub_key_present),
    }
}

fn labelled(label: &str, value: &str) -> (r: String)
    ensures
        r@ == label@ + value@,
{
    let mut out = label.to_owned();
    out.append(value);
    out
}

fn presence_word(present: bool) -> (r: &'static str)
    ensures
        r@ == presence(present),
{
    if present {
        "present"
    } else {
        "missing"
    }
}

impl LinodeProvisionConfig {
    /// Each region of the mesh is mapped once.
    pub open spec fn valid(self) -> bool {
        distinct_pairs(self.region_map@)
    }

    /// The provider's region for a region of the mesh: the mapped one, or the region itself.
    pub open spec fn resolved(self, mesh_region: Seq<char>) -> Seq<char> {
        match pair_value(self.region_map@, mesh_region) {
            Some(region) => region,
            None => mesh_region,
        }
    }

    /// The provider's region for a region of the mesh.
    pub fn resolve_region(&self, mesh_region: &str) -> (r: String)
        ensures
            r@ == self.resolved(mesh_region@),
    {
        let ghost pairs = self.region_map@;
        let mut i: usize = self.region_map.len();
        proof {
            assert(pairs.take(pairs.len() as int) =~= pairs);
        }
        while i > 0
            invariant
                pairs == self.region_map@,
                i <= pairs.len(),
                pair_value(pairs, mesh_region@) == pair_value(pairs.take(i as int), mesh_region@),
            decreases i,
        {
            proof {
                assert(pairs.take(i as int).drop_last() =~= pairs.take(i - 1));
                assert(pairs.take(i as int).last() == pairs[i - 1]);
            }
            if same_text(self.region_map[i - 1].0.as_str(), mesh_region) {
                return self.region_map[i - 1].1.clone();
            }
            i = i - 1;
        }
        mesh_region.to_owned()
    }

    /// The status of the backend, by whether its two secrets are in the environment.
    pub fn status(&self, token_present: bool, pub_key_present: bool) -> (r: ProvisionBackendStatus)
        ensures
            r@ == linode_status(*self, token_present, pub_key_present),
    {
        let mut token = labelled("token env ", self.token_env.as_str());
        token.append(" ");
        token.append(presence_word(token_present));
        let mut key = labelled("public key env ", self.pub_key_env.as_str());
        key.append(" ");
        key.append(presence_word(pub_key_present));
        let mut details: Vec<String> = Vec::new();
        details.push(token);
        details.push(key);
        details.push(labelled("image ", self.image_id.as_str()));
        details.push(labelled("type ", self.instance_type.as_str()));
        details.push(labelled("domain ", decimal_text(self.domain_id).as_str()));
        details.push(labelled("private vlan ", self.vlan_tag.as_str()));
        if self.region_map.len() == 0 {
            details.push("region map empty".to_owned());
        } else {
            let mut entries = decimal_text(self.region_map.len() as u64);
            entries.append(" region map entries");
            details.push(entries);
        }
        proof {
            assert(views(details@) =~= linode_details(*self, token_present, pub_key_present));
        }
        ProvisionBackendStatus {
            name: "linode".to_owned(),
            state: if token_present && pub_key_present {
                "ready"
            } else {
                "blocked"
            },
            details,
        }
    }
}

/// The configured backends of provisioning.
#[derive(Debug)]
pub struct ProvisionExecutor {
    pub command: Option<String>,
    pub timeout_ns: u128,
    pub linode: Option<LinodeProvisionConfig>,
}

/// The status of the backend that runs a command.
pub open spec fn command_backend() -> BackendModel {
    BackendModel { name: "command"@, state: "ready"@, details: seq!["shell command configured"@] }
}

impl ProvisionExecutor {
    /// Provisioning by a command, where there is one.
    pub fn new(command: Option<String>, timeout_ns: u128) -> (r: Self)
        ensures
            r == (ProvisionExecutor { command, timeout_ns, linode: None }),
    {
        ProvisionExecutor { command, timeout_ns, linode: None }
    }

    /// The same with the provider's backend, or without it.
    pub fn with_linode(self, linode: Option<LinodeProvisionConfig>) -> (r: Self)
        ensures
            r == (ProvisionExecutor { linode, ..self }),
    {
        ProvisionExecutor { command: self.command, timeout_ns: self.timeout_ns, linode }
    }

    /// No provisioning.
    pub fn disabled() -> (r: Self)
        ensures
            r == (ProvisionExecutor { command: None, timeout_ns: 30_000_000_000, linode: None }),
    {
        ProvisionExecutor { command: None, timeout_ns: 30_000_000_000, linode: None }
    }

    /// The backends, the command before the provider.
    pub open spec fn backends(self, token_present: bool, pub_key_present: bool) -> Seq<
        BackendModel,
    > {
        (if self.command is Some {
            seq![command_backend()]
        } else {
            Seq::empty()
        }) + (match self.linode {
            Some(config) => seq![linode_status(config, token_present, pub_key_present)],
            None => Seq::empty(),
        })
    }

    /// The status of provisioning.
    pub fn status(&self, token_present: bool, pub_key_present: bool) -> (r: ProvisionStatus)
        ensures
            r.enabled == (self.command is Some || self.linode is Some),
            backend_views(r.backend_statuses@) == self.backends(token_present, pub_key_present),
            views(r.backends@) == self.backends(token_present, pub_key_present).map_values(
                |b: BackendModel| b.name,
            ),
            r.timeout_ms == whole_ms(self.timeout_ns),
    {
        let mut backends: Vec<String> = Vec::new();
        let mut backend_statuses: Vec<ProvisionBackendStatus> = Vec::new();
        if self.command.is_some() {
            backends.push("command".to_owned());
            let mut details: Vec<String> = Vec::new();
            details.push("shell command configured".to_owned());
            proof {
                assert(views(details@) =~= seq!["shell command configured"@]);
            }
            backend_statuses.push(
                ProvisionBackendStatus { name: "command".to_owned(), state: "ready", details },
            );
        }
        match &self.linode {
            Some(config) => {
                backends.push("linode".to_owned());
                backend_statuses.push(config.status(token_present, pub_key_present));
            },
            None => {},
        }
        let enabled: bool = backends.len() > 0;
        proof {
            assert(backend_views(backend_statuses@) =~= self.backends(
                token_present,
                pub_key_present,
            ));
            assert(views(backends@) =~= self.backends(token_present, pub_key_present).map_values(
                |b: BackendModel| b.name,
            ));
        }
        ProvisionStatus {
            enabled,
            backends,
            timeout_ms: duration_ms(self.timeout_ns),
            backend_statuses,
        }
    }
}

/// Whether the provider's status ends the run: it failed, or was skipped.
pub open spec fn ends_run(status: Seq<char>) -> bool {
    occurs_in(" failed:"@, status) || occurs_in(" skipped:"@, status)
}

/// Whether the provider's status ends the run before the command.
pub fn linode_ends_run(status: &str) -> (r: bool)
    ensures
        r == ends_run(status@),
{
    contains_text(status, " failed:") || contains_text(status, " skipped:")
}

/// The status of a run: of the provider and of the command, where they ran.
pub open spec fn run_text(linode: Option<Seq<char>>, command: Option<Seq<char>>) -> Seq<char> {
    match (linode, command) {
        (Some(l), Some(c)) => if ends_run(l) {
            l
        } else {
            l + "; "@ + c
        },
        (Some(l), None) => l,
        (None, Some(c)) => c,
        (None, None) => "local provision skipped: no provision backend configured"@,
    }
}

/// The status of a run. What the command reports plays no part where the provider ended it.
pub fn provision_run_status(linode: Option<&str>, command: Option<&str>) -> (r: String)
    ensures
        r@ == run_text(view_of_str(linode), view_of_str(command)),
{
    match (linode, command) {
        (Some(l), Some(c)) => {
            let mut out = l.to_owned();
            if !linode_ends_run(l) {
                out.append("; ");
                out.append(c);
            }
            out
        },
        (Some(l), None) => l.to_owned(),
        (None, Some(c)) => c.to_owned(),
        (None, None) => "local provision skipped: no provision backend configured".to_owned(),
    }
}

/// What `String::from_utf8_lossy` makes of bytes.
pub uninterp spec fn lossy_text(bytes: Seq<u8>) -> Seq<char>;

/// Calls `String::from_utf8_lossy`, which decodes valid bytes as they stand and puts a
/// replacement character in place of what is not valid.
#[verifier::external_body]
fn decode_lossy(bytes: &[u8]) -> (r: String)
    ensures
        r@ == lossy_text(bytes@),
        valid_utf8(bytes@) ==> r@ == decode_utf8(bytes@),
{
    String::from_utf8_lossy(bytes).into_owned()
}

/// The text of an output as it is reported: on one line, and marked where it was cut.
pub open spec fn reported(text: Seq<char>, cut: bool) -> Seq<char> {
    replaced(trimmed(text), '\n', "\\n"@) + (if cut {
        "..."@
    } else {
        Seq::empty()
    })
}

/// The text of an output as it is reported.
pub fn report_text(text: &str, cut: bool) -> (r: String)
    ensures
        r@ == reported(text@, cut),
{
    let bare = trim(text);
    let mut out = replace_char(bare.as_str(), '\n', "\\n");
    if cut {
        out.append("...");
    } else {
        proof {
            assert(out@ + Seq::<char>::empty() =~= out@);
        }
    }
    out
}

/// The first bytes of an output as they are reported.
pub open spec fn truncated(bytes: Seq<u8>) -> Seq<char> {
    if bytes.len() > OUTPUT_LIMIT {
        reported(lossy_text(bytes.take(OUTPUT_LIMIT as int)), true)
    } else {
        reported(lossy_text(bytes), false)
    }
}

/// The first bytes of an output as they are reported.
pub fn truncated_utf8(bytes: &[u8]) -> (r: String)
    ensures
        r@ == truncated(bytes@),
{
    if bytes.len() > OUTPUT_LIMIT {
        let head = byte_range(bytes, 0, OUTPUT_LIMIT);
        assert(head@ =~= bytes@.take(OUTPUT_LIMIT as int));
        let text = decode_lossy(head.as_slice());
        report_text(text.as_str(), true)
    } else {
        let text = decode_lossy(bytes);
        report_text(text.as_str(), false)
    }
}

/// The two outputs of a command, where they are not empty.
pub open spec fn detail_text(stdout: Seq<char>, stderr: Seq<char>) -> Seq<char> {
    if stdout.len() == 0 && stderr.len() == 0 {
        Seq::empty()
    } else if stderr.len() == 0 {
        "stdout="@ + stdout
    } else if stdout.len() == 0 {
        "stderr="@ + stderr
    } else {
        "stdout="@ + stdout + "; stderr="@ + stderr
    }
}

/// The two outputs of a command as they are reported.
pub fn output_detail(stdout: &str, stderr: &str) -> (r: String)
    ensures
        r@ == detail_text(stdout@, stderr@),
{
    if stdout.is_empty() && stderr.is_empty() {
        String::new()
    } else if stderr.is_empty() {
        labelled("stdout=", stdout)
    } else if stdout.is_empty() {
        labelled("stderr=", stderr)
    } else {
        let mut out = labelled("stdout=", stdout);
        out.append("; stderr=");
        out.append(stderr);
        out
    }
}

/// The two outputs of a command as they are reported.
pub fn command_output_detail(stdout: &[u8], stderr: &[u8]) -> (r: String)
    ensures
        r@ == detail_text(truncated(stdout@), truncated(stderr@)),
{
    let out = truncated_utf8(stdout);
    let err = truncated_utf8(stderr);
    output_detail(out.as_str(), err.as_str())
}

/// What became of a command.
#[derive(Debug)]
pub enum CommandRun {
    TimedOut { timeout_ms: u64 },
    SpawnFailed { error: String },
    Exited { success: bool, status: String, detail: String },
}

/// The status of a command that was run.
pub open spec fn command_run_text(run: CommandRun) -> Seq<char> {
    match run {
        CommandRun::TimedOut { timeout_ms } => {
            "local provision failed: command timed out after "@ + decimal(timeout_ms as nat)
                + " ms"@
        },
        CommandRun::SpawnFailed { error } => {
            "local provision failed: command spawn failed: "@ + error@
        },
        CommandRun::Exited { success, status, detail } => {
            let head = (if success {
                "local provision executed: "@
            } else {
                "local provision failed: "@
            }) + status@;
            if detail@.len() == 0 {
                head
            } else {
                head + "; "@ + detail@
            }
        },
    }
}

/// The status of a command that was run.
pub fn command_run_status(run: &CommandRun) -> (r: String)
    ensures
        r@ == command_run_text(*run),
{
    match run {
        CommandRun::TimedOut { timeout_ms } => {
            let mut out = labelled(
                "local provision failed: command timed out after ",
                decimal_text(*timeout_ms).as_str(),
            );
            out.append(" ms");
            out
        },
        CommandRun::SpawnFailed { error } => labelled(
            "local provision failed: command spawn failed: ",
            error.as_str(),
        ),
        CommandRun::Exited { success, status, detail } => {
            let mut out = if *success {
                labelled("local provision executed: ", status.as_str())
            } else {
                labelled("local provision failed: ", status.as_str())
            };
            if !detail.as_str().is_empty() {
                out.append("; ");
                out.append(detail.as_str());
            }
            out
        },
    }
}

/// What the provider reports of a node that it made.
#[derive(Debug)]
pub struct ScaleUpResult {
    pub instance_id: u64,
    pub label: String,
    pub public_ipv4: String,
    pub private_ipam_address: String,
    pub vlan_label: String,
    pub dns_name: Option<String>,
    pub region_code: String,
    pub linode_region: String,
}

/// The status of a node that the provider made.
pub open spec fn linode_result_text(requested_region: Seq<char>, result: ScaleUpResult) -> Seq<
    char,
> {
    "local linode provisioned: requested_region="@ + requested_region + " linode_region="@
        + result.linode_region@ + " instance_id="@ + decimal(result.instance_id as nat)
        + " label="@ + result.label@ + " public_ipv4="@ + result.public_ipv4@ + " private_ipam="@
        + result.private_ipam_address@ + " vlan="@ + result.vlan_label@ + " dns="@ + (
    match result.dns_name {
        Some(dns) => dns@,
        None => "none"@,
    })
}

/// The status of a node that the provider made.
pub fn format_linode_provision_result(requested_region: &str, result: &ScaleUpResult) -> (r: String)
    ensures
        r@ == linode_result_text(requested_region@, *result),
{
    let mut out = labelled("local linode provisioned: requested_region=", requested_region);
    out.append(" linode_region=");
    out.append(result.linode_region.as_str());
    out.append(" instance_id=");
    out.append(decimal_text(result.instance_id).as_str());
    out.append(" label=");
    out.append(result.label.as_str());
    out.append(" public_ipv4=");
    out.append(result.public_ipv4.as_str());
    out.append(" private_ipam=");
    out.append(result.private_ipam_address.as_str());
    out.append(" vlan=");
    out.append(result.vlan_label.as_str());
    out.append(" dns=");
    match &result.dns_name {
        Some(dns) => {
            out.append(dns.as_str());
        },
        None => {
            out.append("none");
        },
    }
    out
}

/// Whether `linode::regions::REGIONS` has an entry for a code.
pub uninterp spec fn linode_region_known(code: Seq<char>) -> bool;

/// Looks a code up in `linode::regions::REGIONS`, the fixed table of the provider's regions.
#[verifier::external_body]
fn is_linode_region(code: &str) -> (r: bool)
    ensures
        r == linode_region_known(code@),
{
    linode::regions::REGIONS.contains_key(code)
}

/// What a run at the provider comes down to before anything is asked of it.
#[derive(Debug)]
pub enum LinodePlan {
    /// Nothing: the reason why.
    Skipped { status: String },
    /// Make a node in a region of the provider, for a region of the mesh.
    ScaleUp { requested_region: String, linode_region: String },
}

/// The region that a request is about: the one that it names, or the node's own.
pub open spec fn requested_region(request: ControlRequest, local_region: Seq<char>) -> Seq<char> {
    match request.region {
        Some(region) => region@,
        None => local_region,
    }
}

/// Whether a plan is the one for a request: a region that the provider does not have is
/// refused first, then a missing token, then a missing key.
pub open spec fn is_linode_plan(
    plan: LinodePlan,
    config: LinodeProvisionConfig,
    requested: Seq<char>,
    known: bool,
    token_present: bool,
    pub_key_present: bool,
) -> bool {
    let region = config.resolved(requested);
    if !known {
        plan is Skipped && plan->status@ == "local linode provision skipped: region "@ + requested
            + " resolved to unsupported Linode region "@ + region
    } else if !token_present {
        plan is Skipped && plan->status@ == "local linode provision skipped: missing "@
            + config.token_env@
    } else if !pub_key_present {
        plan is Skipped && plan->status@ == "local linode provision skipped: missing "@
            + config.pub_key_env@
    } else {
        plan is ScaleUp && plan->requested_region@ == requested && plan->linode_region@ == region
    }
}

/// The plan for a request, where it is known whether the provider has the region.
pub fn linode_plan_given(
    config: &LinodeProvisionConfig,
    requested: &str,
    known: bool,
    token_present: bool,
    pub_key_present: bool,
) -> (r: LinodePlan)
    ensures
        is_linode_plan(r, *config, requested@, known, token_present, pub_key_present),
{
    let region = config.resolve_region(requested);
    if !known {
        let mut status = labelled("local linode provision skipped: region ", requested);
        status.append(" resolved to unsupported Linode region ");
        status.append(region.as_str());
        return LinodePlan::Skipped { status };
    }
    if !token_present {
        return LinodePlan::Skipped {
            status: labelled(
                "local linode provision skipped: missing ",
                config.token_env.as_str(),
            ),
        };
    }
    if !pub_key_present {
        return LinodePlan::Skipped {
            status: labelled(
                "local linode provision skipped: missing ",
                config.pub_key_env.as_str(),
            ),
        };
    }
    LinodePlan::ScaleUp { requested_region: requested.to_owned(), linode_region: region }
}

/// The plan for a request.
pub fn plan_linode(
    config: &LinodeProvisionConfig,
    local_region: &str,
    request: &ControlRequest,
    token_present: bool,
    pub_key_present: bool,
) -> (r: LinodePlan)
    ensures
        ({
            let requested = requested_region(*request, local_region@);
            is_linode_plan(
                r,
                *config,
                requested,
                linode_region_known(config.resolved(requested)),
                token_present,
                pub_key_present,
            )
        }),
{
    let requested = match &request.region {
        Some(region) => region.clone(),
        None => local_region.to_owned(),
    };
    let region = config.resolve_region(requested.as_str());
    let known = is_linode_region(region.as_str());
    linode_plan_given(config, requested.as_str(), known, token_present, pub_key_present)
}

/// What became of a run at the provider.
#[derive(Debug)]
pub enum LinodeRun {
    InvalidClient { error: String },
    TimedOut { timeout_ms: u64 },
    Failed { error: String },
    Made(ScaleUpResult),
}

/// The status of a run at the provider.
pub open spec fn linode_run_text(requested: Seq<char>, run: LinodeRun) -> Seq<char> {
    match run {
        LinodeRun::InvalidClient { error } => {
            "local linode provision failed: invalid client config: "@ + error@
        },
        LinodeRun::TimedOut { timeout_ms } => {
            "local linode provision failed: timed out after "@ + decimal(timeout_ms as nat)
                + " ms"@
        },
        LinodeRun::Failed { error } => "local linode provision failed: "@ + error@,
        LinodeRun::Made(result) => linode_result_text(requested, result),
    }
}

/// The status of a run at the provider.
pub fn linode_run_status(requested_region: &str, run: &LinodeRun) -> (r: String)
    ensures
        r@ == linode_run_text(requested_region@, *run),
{
    match run {
        LinodeRun::InvalidClient { error } => labelled(
            "local linode provision failed: invalid client config: ",
            error.as_str(),
        ),
        LinodeRun::TimedOut { timeout_ms } => {
            let mut out = labelled(
                "local linode provision failed: timed out after ",
                decimal_text(*timeout_ms).as_str(),
            );
            out.append(" ms");
            out
        },
        LinodeRun::Failed { error } => labelled(
            "local linode provision failed: ",
            error.as_str(),
        ),
        LinodeRun::Made(result) => format_linode_provision_result(requested_region, result),
    }
}

/// A variable of a command's environment.
#[verifier::ext_equal]
pub struct VariableModel {
    pub name: Seq<char>,
    pub value: Seq<char>,
}

/// The variables of a list.
pub open spec fn variable_views(list: Seq<(&'static str, String)>) -> Seq<VariableModel> {
    list.map_values(
        |v: (&'static str, String)| VariableModel { name: v.0@, value: v.1@ },
    )
}

/// An optional text, empty where it is missing.
pub open spec fn or_empty(s: Option<String>) -> Seq<char> {
    match s {
        Some(text) => text@,
        None => Seq::empty(),
    }
}

fn text_or_empty(s: &Option<String>) -> (r: String)
    ensures
        r@ == or_empty(*s),
{
    match s {
        Some(text) => text.clone(),
        None => String::new(),
    }
}

/// What a command is told of the request.
pub open spec fn request_variables(
    control_id: u64,
    node_id: Seq<char>,
    region: Seq<char>,
    request: ControlRequest,
) -> Seq<VariableModel> {
    seq![
        VariableModel { name: "AV_MESH_CONTROL_ID"@, value: decimal(control_id as nat) },
        VariableModel { name: "AV_MESH_LOCAL_NODE_ID"@, value: node_id },
        VariableModel { name: "AV_MESH_LOCAL_REGION"@, value: region },
        VariableModel { name: "AV_MESH_PROVISION_NODE_ID"@, value: or_empty(request.node_id) },
        VariableModel { name: "AV_MESH_PROVISION_REGION"@, value: or_empty(request.region) },
        VariableModel {
            name: "AV_MESH_PROVISION_STREAM_ID"@,
            value: match request.stream_id {
                Some(stream_id) => decimal(stream_id as nat),
                None => Seq::empty(),
            },
        },
    ]
}

/// What a command is told of the node that the provider made.
pub open spec fn result_variables(result: ScaleUpResult) -> Seq<VariableModel> {
    seq![
        VariableModel {
            name: "AV_MESH_LINODE_INSTANCE_ID"@,
            value: decimal(result.instance_id as nat),
        },
        VariableModel { name: "AV_MESH_LINODE_LABEL"@, value: result.label@ },
        VariableModel { name: "AV_MESH_LINODE_PUBLIC_IPV4"@, value: result.public_ipv4@ },
        VariableModel {
            name: "AV_MESH_LINODE_PRIVATE_IPAM"@,
            value: result.private_ipam_address@,
        },
        VariableModel { name: "AV_MESH_LINODE_VLAN_LABEL"@, value: result.vlan_label@ },
        VariableModel { name: "AV_MESH_LINODE_DNS_NAME"@, value: or_empty(result.dns_name) },
        VariableModel { name: "AV_MESH_LINODE_REGION_CODE"@, value: result.region_code@ },
        VariableModel { name: "AV_MESH_LINODE_REGION"@, value: result.linode_region@ },
    ]
}

/// The environment of a provisioning command.
pub fn provision_environment(
    control_id: u64,
    node_id: &str,
    region: &str,
    request: &ControlRequest,
    result: &Option<ScaleUpResult>,
) -> (r: Vec<(&'static str, String)>)
    ensures
        variable_views(r@) == request_variables(control_id, node_id@, region@, *request) + (
        match result {
            Some(result) => result_variables(*result),
            None => Seq::empty(),
        }),
{
    let stream = match request.stream_id {
        Some(stream_id) => decimal_text(stream_id),
        None => String::new(),
    };
    let mut out: Vec<(&'static str, String)> = Vec::new();
    out.push(("AV_MESH_CONTROL_ID", decimal_text(control_id)));
    out.push(("AV_MESH_LOCAL_NODE_ID", node_id.to_owned()));
    out.push(("AV_MESH_LOCAL_REGION", region.to_owned()));
    out.push(("AV_MESH_PROVISION_NODE_ID", text_or_empty(&request.node_id)));
    out.push(("AV_MESH_PROVISION_REGION", text_or_empty(&request.region)));
    out.push(("AV_MESH_PROVISION_STREAM_ID", stream));
    let ghost first = out@;
    proof {
        assert(variable_views(first) =~= request_variables(
            control_id,
            node_id@,
            region@,
            *request,
        ));
    }
    match result {
        Some(result) => {
            out.push(("AV_MESH_LINODE_INSTANCE_ID", decimal_text(result.instance_id)));
            out.push(("AV_MESH_LINODE_LABEL", result.label.clone()));
            out.push(("AV_MESH_LINODE_PUBLIC_IPV4", result.public_ipv4.clone()));
            out.push(("AV_MESH_LINODE_PRIVATE_IPAM", result.private_ipam_address.clone()));
            out.push(("AV_MESH_LINODE_VLAN_LABEL", result.vlan_label.clone()));
            out.push(("AV_MESH_LINODE_DNS_NAME", text_or_empty(&result.dns_name)));
            out.push(("AV_MESH_LINODE_REGION_CODE", result.region_code.clone()));
            out.push(("AV_MESH_LINODE_REGION", result.linode_region.clone()));
            proof {
                assert(variable_views(out@) =~= variable_views(first) + result_variables(*result));
            }
        },
        None => {
            proof {
                assert(variable_views(out@) =~= variable_views(first) + Seq::<
                    VariableModel,
                >::empty());
            }
        },
    }
    out
}

/// Whether a variable of the environment holds something: it is there, and not only white
/// space.
pub fn env_value_present(value: Option<&str>) -> (r: bool)
    ensures
        r == match value {
            Some(text) => trimmed(text@).len() > 0,
            None => false,
        },
{
    match value {
        Some(text) => {
            let rest = trim(text);
            proof {
                reveal_strlit("");
                assert(rest@.len() == 0 ==> rest@ =~= ""@);
            }
            !same_text(rest.as_str(), "")
        },
        None => false,
    }
}

/// The entry of a region that counts is the last one; a region without an entry stands for itself.
pub proof fn the_last_entry_of_a_region_counts(config: LinodeProvisionConfig, region: Seq<char>)
    ensures
        ({
            let map = config.region_map@;
            &&& (forall|i: int| 0 <= i < map.len() ==> (#[trigger] map[i]).0@ != region)
                ==> config.resolved(region) == region
            &&& forall|i: int|
                0 <= i < map.len() && (#[trigger] map[i]).0@ == region && (forall|j: int|
                    i < j < map.len() ==> (#[trigger] map[j]).0@ != region) ==> config.resolved(
                    region,
                ) == map[i].1@
        }),
{
    lemma_pair_raw(config.region_map@, region);
}

proof fn lemma_pair_raw(pairs: Seq<(String, String)>, key: Seq<char>)
    ensures
        (forall|i: int| 0 <= i < pairs.len() ==> (#[trigger] pairs[i]).0@ != key) ==> pair_value(
            pairs,
            key,
        ) is None,
        forall|i: int|
            0 <= i < pairs.len() && (#[trigger] pairs[i]).0@ == key && (forall|j: int|
                i < j < pairs.len() ==> (#[trigger] pairs[j]).0@ != key) ==> pair_value(pairs, key)
                == Some(pairs[i].1@),
    decreases pairs.len(),
{
    if pairs.len() > 0 {
        let front = pairs.drop_last();
        let n = pairs.len() - 1;
        lemma_pair_raw(front, key);
        assert(pairs.last() == pairs[n]);
        assert forall|i: int| 0 <= i < n implies front[i] == #[trigger] pairs[i] by {}
        if forall|i: int| 0 <= i < pairs.len() ==> (#[trigger] pairs[i]).0@ != key {
            assert(pairs[n].0@ != key);
            assert forall|i: int| 0 <= i < front.len() implies (#[trigger] front[i]).0@
                != key by {
                assert(pairs[i] == front[i]);
            }
        }
        assert forall|i: int|
            0 <= i < pairs.len() && (#[trigger] pairs[i]).0@ == key && (forall|j: int|
                i < j < pairs.len() ==> (#[trigger] pairs[j]).0@ != key) implies pair_value(
            pairs,
            key,
        ) == Some(pairs[i].1@) by {
            if i < n {
                assert(pairs[n].0@ != key);
                assert(front[i] == pairs[i]);
                assert forall|j: int| i < j < front.len() implies (#[trigger] front[j]).0@
                    != key by {
                    assert(pairs[j] == front[j]);
                }
            }
        }
    }
}

/// A node is made only where the region is known and both secrets are there, in the region that the
/// requested one stands for; else the plan tells that it was skipped.
pub proof fn nodes_are_made_only_with_everything(
    plan: LinodePlan,
    config: LinodeProvisionConfig,
    requested: Seq<char>,
    known: bool,
    token_present: bool,
    pub_key_present: bool,
)
    requires
        is_linode_plan(plan, config, requested, known, token_present, pub_key_present),
    ensures
        plan is ScaleUp <==> known && token_present && pub_key_present,
        plan is ScaleUp ==> plan->requested_region@ == requested && plan->linode_region@
            == config.resolved(requested),
        plan is Skipped ==> says(plan->status@, "skipped"@),
{
    reveal_strlit("skipped");
    reveal_strlit("local linode provision skipped: region ");
    reveal_strlit("local linode provision skipped: missing ");
    if plan is Skipped {
        assert(says_at(plan->status@, "skipped"@, 23));
    }
}

/// A run of two backends tells of both, unless the first one failed or was skipped, which ends it;
/// a run of none tells that it was skipped.
pub proof fn runs_tell_of_their_backends(linode: Seq<char>, command: Seq<char>)
    ensures
        run_text(Some(linode), None) == linode,
        run_text(None, Some(command)) == command,
        says(run_text(None, None), "skipped"@),
        occurs_in(" failed:"@, linode) || occurs_in(" skipped:"@, linode) ==> run_text(
            Some(linode),
            Some(command),
        ) == linode,
        !occurs_in(" failed:"@, linode) && !occurs_in(" skipped:"@, linode) ==> run_text(
            Some(linode),
            Some(command),
        ) == linode + "; "@ + command,
{
    reveal_strlit("skipped");
    reveal_strlit("local provision skipped: no provision backend configured");
    assert(says_at(run_text(None, None), "skipped"@, 16));
}

/// A command that could not be run, ran too long or ended badly is told as failed; one that ended
/// well is told as executed, with how it ended.
pub proof fn failed_commands_are_told_as_failed(run: CommandRun)
    ensures
        !(run is Exited) ==> says(command_run_text(run), "failed"@),
        run matches CommandRun::Exited { success, status, detail } ==> {
            &&& !success ==> says(command_run_text(run), "failed"@)
            &&& success ==> command_run_text(run).take(26int + status@.len())
                == "local provision executed: "@ + status@
            &&& detail@.len() > 0 ==> command_run_text(run).skip(
                command_run_text(run).len() - detail@.len(),
            ) == detail@
        },
{
    reveal_strlit("failed");
    reveal_strlit("local provision failed: command timed out after ");
    reveal_strlit("local provision failed: command spawn failed: ");
    reveal_strlit("local provision failed: ");
    reveal_strlit("local provision executed: ");
    let text = command_run_text(run);
    match run {
        CommandRun::Exited { success, status, detail } => {
            if success {
                assert(text.take(26int + status@.len()) =~= "local provision executed: "@ + status@);
            } else {
                assert(says_at(text, "failed"@, 16));
            }
            if detail@.len() > 0 {
                assert(text.skip(text.len() - detail@.len()) =~= detail@);
            }
        },
        _ => {
            assert(says_at(text, "failed"@, 16));
        },
    }
}

/// Output is told on one line: without line breaks, and cut off behind 160 bytes with a mark that
/// tells so.
pub proof fn output_is_told_on_one_line(bytes: Seq<u8>)
    ensures
        !truncated(bytes).contains('\n'),
        bytes.len() > 160 ==> truncated(bytes) == truncated(bytes.take(160)) + "..."@,
{
    reveal_strlit("...");
    reveal_strlit("\\n");
    if bytes.len() > 160 {
        let cut = bytes.take(160);
        lemma_no_breaks(trimmed(lossy_text(cut)));
        assert(reported(lossy_text(cut), false) =~= replaced(
            trimmed(lossy_text(cut)),
            '\n',
            "\\n"@,
        ));
    } else {
        lemma_no_breaks(trimmed(lossy_text(bytes)));
    }
    let text = truncated(bytes);
    assert forall|i: int| 0 <= i < text.len() implies text[i] != '\n' by {
        let inner = if bytes.len() > 160 {
            replaced(trimmed(lossy_text(bytes.take(160))), '\n', "\\n"@)
        } else {
            replaced(trimmed(lossy_text(bytes)), '\n', "\\n"@)
        };
        if i < inner.len() {
            assert(text[i] == inner[i]);
        }
    }
}

proof fn lemma_no_breaks(s: Seq<char>)
    ensures
        forall|i: int|
            0 <= i < replaced(s, '\n', "\\n"@).len() ==> #[trigger] replaced(s, '\n', "\\n"@)[i]
                != '\n',
    decreases s.len(),
{
    reveal_strlit("\\n");
    if s.len() > 0 {
        lemma_no_breaks(s.drop_last());
        let before = replaced(s.drop_last(), '\n', "\\n"@);
        let all = replaced(s, '\n', "\\n"@);
        let more = if s.last() == '\n' {
            "\\n"@
        } else {
            seq![s.last()]
        };
        assert(all == before + more);
        assert forall|i: int| 0 <= i < all.len() implies #[trigger] all[i] != '\n' by {
            if i < before.len() {
                assert(all[i] == before[i]);
            } else {
                assert(all[i] == more[i - before.len()]);
            }
        }
    }
}

/// What a command printed is told by its two streams, of which an empty one is left out.
pub proof fn streams_are_told_where_they_say_something(stdout: Seq<char>, stderr: Seq<char>)
    requires
        stdout.len() > 0,
        stderr.len() > 0,
    ensures
        detail_text(Seq::empty(), Seq::empty()).len() == 0,
        detail_text(stdout, Seq::empty()) == "stdout="@ + stdout,
        detail_text(Seq::empty(), stderr) == "stderr="@ + stderr,
        detail_text(stdout, stderr) == detail_text(stdout, Seq::empty()) + "; "@ + detail_text(
            Seq::empty(),
            stderr,
        ),
{
    reveal_strlit("; stderr=");
    reveal_strlit("; ");
    reveal_strlit("stderr=");
    assert("; stderr="@ =~= "; "@ + "stderr="@);
    assert(detail_text(stdout, stderr) =~= "stdout="@ + stdout + "; "@ + ("stderr="@ + stderr));
}

/// The backends of an executor are those that it has, the command before the provider. A command is
/// always ready, the provider exactly where both of its secrets are there.
pub proof fn backends_are_told_in_order(
    executor: ProvisionExecutor,
    token_present: bool,
    pub_key_present: bool,
)
    ensures
        ({
            let told = executor.backends(token_present, pub_key_present);
            &&& told.len() == (if executor.command is Some {
                1int
            } else {
                0
            }) + (if executor.linode is Some {
                1int
            } else {
                0
            })
            &&& executor.command is Some ==> told[0].name == "command"@ && told[0].state
                == "ready"@
            &&& executor.linode is Some ==> told.last().name == "linode"@ && told.last().state == (
            if token_present && pub_key_present {
                "ready"@
            } else {
                "blocked"@
            })
        }),
{
}

/// The environment of a command names what was asked for and by whom.
pub proof fn the_environment_names_the_request(
    control_id: u64,
    node_id: Seq<char>,
    region: Seq<char>,
    request: ControlRequest,
    result: ScaleUpResult,
)
    ensures
        ({
            let v = request_variables(control_id, node_id, region, request);
            &&& sets(v, "AV_MESH_CONTROL_ID"@, decimal(control_id as nat))
            &&& sets(v, "AV_MESH_LOCAL_NODE_ID"@, node_id)
            &&& sets(v, "AV_MESH_LOCAL_REGION"@, region)
            &&& sets(v, "AV_MESH_PROVISION_NODE_ID"@, or_empty(request.node_id))
            &&& sets(v, "AV_MESH_PROVISION_REGION"@, or_empty(request.region))
            &&& request.stream_id is Some ==> sets(
                v,
                "AV_MESH_PROVISION_STREAM_ID"@,
                decimal(request.stream_id->0 as nat),
            )
        }),
        ({
            let v = result_variables(result);
            &&& sets(v, "AV_MESH_LINODE_INSTANCE_ID"@, decimal(result.instance_id as nat))
            &&& sets(v, "AV_MESH_LINODE_LABEL"@, result.label@)
            &&& sets(v, "AV_MESH_LINODE_PUBLIC_IPV4"@, result.public_ipv4@)
            &&& sets(v, "AV_MESH_LINODE_PRIVATE_IPAM"@, result.private_ipam_address@)
            &&& sets(v, "AV_MESH_LINODE_VLAN_LABEL"@, result.vlan_label@)
            &&& sets(v, "AV_MESH_LINODE_DNS_NAME"@, or_empty(result.dns_name))
            &&& sets(v, "AV_MESH_LINODE_REGION_CODE"@, result.region_code@)
            &&& sets(v, "AV_MESH_LINODE_REGION"@, result.linode_region@)
        }),
{
    let v = request_variables(control_id, node_id, region, request);
    let w = result_variables(result);
    assert(v[0].name == "AV_MESH_CONTROL_ID"@);
    assert(v[1].name == "AV_MESH_LOCAL_NODE_ID"@);
    assert(v[2].name == "AV_MESH_LOCAL_REGION"@);
    assert(v[3].name == "AV_MESH_PROVISION_NODE_ID"@);
    assert(v[4].name == "AV_MESH_PROVISION_REGION"@);
    assert(v[5].name == "AV_MESH_PROVISION_STREAM_ID"@);
    assert(w[0].name == "AV_MESH_LINODE_INSTANCE_ID"@);
    assert(w[1].name == "AV_MESH_LINODE_LABEL"@);
    assert(w[2].name == "AV_MESH_LINODE_PUBLIC_IPV4"@);
    assert(w[3].name == "AV_MESH_LINODE_PRIVATE_IPAM"@);
    assert(w[4].name == "AV_MESH_LINODE_VLAN_LABEL"@);
    assert(w[5].name == "AV_MESH_LINODE_DNS_NAME"@);
    assert(w[6].name == "AV_MESH_LINODE_REGION_CODE"@);
    assert(w[7].name == "AV_MESH_LINODE_REGION"@);
}

/// Whether a variable is set to a value.
pub open spec fn sets(list: Seq<VariableModel>, name: Seq<char>, value: Seq<char>) -> bool {
    exists|i: int| 0 <= i < list.len() && (#[trigger] list[i]).name == name && list[i].value == value
}

/// The region that is asked for is that of the request, and this node's own where it names none.
pub proof fn requests_name_their_region(request: ControlRequest, local_region: Seq<char>)
    ensures
        request.region is Some ==> requested_region(request, local_region) == (request.region->0)@,
        request.region is None ==> requested_region(request, local_region) == local_region,
{
}

/// A node that was made is told with all that is known of it; a run that made none is told as failed.
pub proof fn nodes_are_told_as_they_were_made(
    requested: Seq<char>,
    result: ScaleUpResult,
    run: LinodeRun,
)
    ensures
        linode_run_text(requested, LinodeRun::Made(result))
            == "local linode provisioned: requested_region="@ + requested + " linode_region="@
            + result.linode_region@ + " instance_id="@ + decimal(result.instance_id as nat)
            + " label="@ + result.label@ + " public_ipv4="@ + result.public_ipv4@
            + " private_ipam="@ + result.private_ipam_address@ + " vlan="@ + result.vlan_label@
            + " dns="@ + (match result.dns_name {
            Some(dns) => dns@,
            None => "none"@,
        }),
        !(run is Made) ==> says(linode_run_text(requested, run), "failed"@),
{
    reveal_strlit("failed");
    reveal_strlit("local linode provision failed: invalid client config: ");
    reveal_strlit("local linode provision failed: timed out after ");
    reveal_strlit("local linode provision failed: ");
    if !(run is Made) {
        assert(says_at(linode_run_text(requested, run), "failed"@, 23));
    }
}

/// The details of a provider tell which of its secrets are there.
pub proof fn details_tell_the_secrets(
    config: LinodeProvisionConfig,
    token_present: bool,
    pub_key_present: bool,
)
    ensures
        ({
            let told = linode_status(config, token_present, pub_key_present).details;
            &&& told.len() == 7
            &&& told[0] == "token env "@ + config.token_env@ + " "@ + (if token_present {
                "present"@
            } else {
                "missing"@
            })
            &&& told[1] == "public key env "@ + config.pub_key_env@ + " "@ + (if pub_key_present {
                "present"@
            } else {
                "missing"@
            })
            &&& told[2] == "image "@ + config.image_id@
            &&& told[3] == "type "@ + config.instance_type@
            &&& told[4] == "domain "@ + decimal(config.domain_id as nat)
            &&& told[5] == "private vlan "@ + config.vlan_tag@
            &&& config.region_map@.len() == 0 ==> told[6] == "region map empty"@
            &&& config.region_map@.len() > 0 ==> told[6] == decimal(config.region_map@.len())
                + " region map entries"@
        }),
{
}

} // verus!

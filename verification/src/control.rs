//! Control requests: their targets, their record and what becomes of them.

use vstd::prelude::*;
use vstd::string::*;
use crate::order::{text_le, text_not_after};
use crate::text::{
    contains_text, copy_text, decimal, decimal_text, join, joined, lower_char, lowered, occurs_in,
    same_text, to_ascii_lowercase, view_of, views,
};

verus! {

/// How many commands are kept.
pub const CONTROL_HISTORY_LIMIT: usize = 128;

/// How many commands are reported.
pub const CONTROL_RECENT_LIMIT: usize = 16;

/// What a command asks for.
#[derive(Clone, Copy, Debug, PartialEq, Eq, Structural)]
pub enum ControlKind {
    ProvisionNode,
    CloseNode,
    WarmStream,
    ReplicaRequest,
}

/// The code of a kind, as text.
pub open spec fn kind_code(kind: ControlKind) -> Seq<char> {
    match kind {
        ControlKind::ProvisionNode => "provision_node"@,
        ControlKind::CloseNode => "close_node"@,
        ControlKind::WarmStream => "warm_stream"@,
        ControlKind::ReplicaRequest => "replica_request"@,
    }
}

/// The label of a kind, as text.
pub open spec fn kind_label(kind: ControlKind) -> Seq<char> {
    match kind {
        ControlKind::ProvisionNode => "Provision node"@,
        ControlKind::CloseNode => "Close node"@,
        ControlKind::WarmStream => "Warm stream"@,
        ControlKind::ReplicaRequest => "Replica request"@,
    }
}

/// The code of a kind.
pub fn control_kind_code(kind: ControlKind) -> (r: &'static str)
    ensures
        r@ == kind_code(kind),
{
    match kind {
        ControlKind::ProvisionNode => "provision_node",
        ControlKind::CloseNode => "close_node",
        ControlKind::WarmStream => "warm_stream",
        ControlKind::ReplicaRequest => "replica_request",
    }
}

/// The label of a kind.
pub fn control_kind_label(kind: ControlKind) -> (r: &'static str)
    ensures
        r@ == kind_label(kind),
{
    match kind {
        ControlKind::ProvisionNode => "Provision node",
        ControlKind::CloseNode => "Close node",
        ControlKind::WarmStream => "Warm stream",
        ControlKind::ReplicaRequest => "Replica request",
    }
}

/// The kind that a path asks for.
pub open spec fn kind_of_path(path: Seq<char>) -> Option<ControlKind> {
    if path == "/api/control/provision-node"@ {
        Some(ControlKind::ProvisionNode)
    } else if path == "/api/control/close-node"@ {
        Some(ControlKind::CloseNode)
    } else if path == "/api/control/warm-stream"@ {
        Some(ControlKind::WarmStream)
    } else {
        None
    }
}

/// The kind that a path asks for.
pub fn control_kind_from_path(path: &str) -> (r: Option<ControlKind>)
    ensures
        r == kind_of_path(path@),
{
    if same_text(path, "/api/control/provision-node") {
        Some(ControlKind::ProvisionNode)
    } else if same_text(path, "/api/control/close-node") {
        Some(ControlKind::CloseNode)
    } else if same_text(path, "/api/control/warm-stream") {
        Some(ControlKind::WarmStream)
    } else {
        None
    }
}

/// A request to a mesh.
#[derive(Debug)]
pub struct ControlRequest {
    pub node_id: Option<String>,
    pub region: Option<String>,
    pub stream_id: Option<u64>,
}

impl ControlRequest {
    /// Another copy of the request.
    pub fn copy(&self) -> (r: Self)
        ensures
            r == *self,
    {
        ControlRequest {
            node_id: copy_text(&self.node_id),
            region: copy_text(&self.region),
            stream_id: self.stream_id,
        }
    }
}

/// A named target, where it is not empty.
pub open spec fn target_part(label: Seq<char>, value: Option<String>) -> Seq<Seq<char>> {
    match value {
        Some(text) => if text@.len() > 0 {
            seq![label + text@]
        } else {
            Seq::empty()
        },
        None => Seq::empty(),
    }
}

/// The targets of a request.
pub open spec fn target_parts(request: ControlRequest) -> Seq<Seq<char>> {
    target_part("node "@, request.node_id) + target_part("region "@, request.region) + (
    match request.stream_id {
        Some(stream_id) => seq!["stream "@ + decimal(stream_id as nat)],
        None => Seq::empty(),
    })
}

/// The targets of a request as one text.
pub open spec fn target_text(request: ControlRequest) -> Seq<char> {
    if target_parts(request).len() == 0 {
        "global"@
    } else {
        joined(target_parts(request), " / "@)
    }
}

fn push_target(parts: &mut Vec<String>, label: &str, value: &Option<String>)
    ensures
        views(final(parts)@) == views(old(parts)@) + target_part(label@, *value),
{
    let ghost before = parts@;
    match value {
        Some(text) => {
            if !text.as_str().is_empty() {
                let mut part = label.to_owned();
                part.append(text.as_str());
                parts.push(part);
                proof {
                    assert(views(parts@) =~= views(before) + target_part(label@, *value));
                }
            } else {
                proof {
                    assert(views(parts@) =~= views(before) + target_part(label@, *value));
                }
            }
        },
        None => {
            proof {
                assert(views(parts@) =~= views(before) + target_part(label@, *value));
            }
        },
    }
}

/// The targets of a request as one text.
pub fn control_request_target_text(request: &ControlRequest) -> (r: String)
    ensures
        r@ == target_text(*request),
{
    let mut parts: Vec<String> = Vec::new();
    proof {
        assert(views(parts@) =~= Seq::<Seq<char>>::empty());
    }
    push_target(&mut parts, "node ", &request.node_id);
    push_target(&mut parts, "region ", &request.region);
    let ghost before = parts@;
    match request.stream_id {
        Some(stream_id) => {
            let mut part = "stream ".to_owned();
            part.append(decimal_text(stream_id).as_str());
            parts.push(part);
            proof {
                assert(views(parts@) =~= views(before) + seq![
                    "stream "@ + decimal(stream_id as nat),
                ]);
            }
        },
        None => {
            proof {
                assert(views(parts@) =~= views(before) + Seq::<Seq<char>>::empty());
            }
        },
    }
    proof {
        assert(Seq::<Seq<char>>::empty() + target_part("node "@, request.node_id)
            =~= target_part("node "@, request.node_id));
        assert(views(parts@) =~= target_parts(*request));
        assert(views(parts@).len() == parts@.len());
    }
    if parts.len() == 0 {
        "global".to_owned()
    } else {
        join(&parts, " / ")
    }
}

/// A command that was accepted, and what became of it.
#[derive(Debug)]
pub struct ControlCommand {
    pub id: u64,
    pub kind: ControlKind,
    pub node_id: Option<String>,
    pub region: Option<String>,
    pub stream_id: Option<u64>,
    pub stream_id_text: Option<String>,
    pub target_text: String,
    pub created_unix_ms: u64,
    pub status: String,
}

impl ControlCommand {
    /// Another copy of the command.
    pub fn copy(&self) -> (r: Self)
        ensures
            r == *self,
    {
        ControlCommand {
            id: self.id,
            kind: self.kind,
            node_id: copy_text(&self.node_id),
            region: copy_text(&self.region),
            stream_id: self.stream_id,
            stream_id_text: copy_text(&self.stream_id_text),
            target_text: self.target_text.clone(),
            created_unix_ms: self.created_unix_ms,
            status: self.status.clone(),
        }
    }
}

/// How a command turned out.
#[derive(Clone, Copy, Debug, PartialEq, Eq, Structural)]
pub enum CommandOutcome {
    Failed,
    Skipped,
    Other,
}

/// How a command turned out, by the words of its status, whatever their case.
pub open spec fn outcome_of(status: Seq<char>) -> CommandOutcome {
    let words = lowered(status);
    if occurs_in("failed"@, words) || occurs_in("timed out"@, words) || occurs_in("error"@, words) {
        CommandOutcome::Failed
    } else if occurs_in("skipped"@, words) {
        CommandOutcome::Skipped
    } else {
        CommandOutcome::Other
    }
}

/// How a command turned out.
pub fn command_outcome(status: &str) -> (r: CommandOutcome)
    ensures
        r == outcome_of(status@),
{
    let words = to_ascii_lowercase(status);
    if contains_text(words.as_str(), "failed") || contains_text(words.as_str(), "timed out")
        || contains_text(words.as_str(), "error") {
        CommandOutcome::Failed
    } else if contains_text(words.as_str(), "skipped") {
        CommandOutcome::Skipped
    } else {
        CommandOutcome::Other
    }
}

/// The record of the commands of a node.
#[derive(Debug)]
pub struct ControlPlane {
    pub commands: Vec<ControlCommand>,
}

/// The last `limit` of a list.
pub open spec fn last_of<T>(list: Seq<T>, limit: int) -> Seq<T> {
    if list.len() > limit {
        list.skip(list.len() - limit)
    } else {
        list
    }
}

/// The position of the first command with an id, or their number.
pub open spec fn command_index(commands: Seq<ControlCommand>, id: u64) -> int
    decreases commands.len(),
{
    if commands.len() == 0 || commands[0].id == id {
        0
    } else {
        1 + command_index(commands.skip(1), id)
    }
}

impl ControlPlane {
    /// The record keeps its limit.
    pub open spec fn valid(self) -> bool {
        self.commands@.len() <= CONTROL_HISTORY_LIMIT
    }

    /// An empty record.
    pub fn new() -> (r: Self)
        ensures
            r.valid(),
            r.commands@.len() == 0,
    {
        ControlPlane { commands: Vec::new() }
    }

    /// Accepts a request: it is recorded behind the others, and the oldest make room.
    pub fn record(&mut self, kind: ControlKind, request: ControlRequest, id: u64, created_unix_ms: u64) -> (r:
        ControlCommand)
        requires
            old(self).valid(),
        ensures
            final(self).valid(),
            final(self).commands@ == last_of(
                old(self).commands@.push(r),
                CONTROL_HISTORY_LIMIT as int,
            ),
            r.id == id,
            r.kind == kind,
            r.node_id == request.node_id,
            r.region == request.region,
            r.stream_id == request.stream_id,
            view_of(r.stream_id_text) == (match request.stream_id {
                Some(stream_id) => Some(decimal(stream_id as nat)),
                None => None,
            }),
            r.target_text@ == target_text(request),
            r.created_unix_ms == created_unix_ms,
            r.status@ == "accepted"@,
    {
        let text = control_request_target_text(&request);
        let stream_id_text = match request.stream_id {
            Some(stream_id) => Some(decimal_text(stream_id)),
            None => None,
        };
        let command = ControlCommand {
            id,
            kind,
            node_id: request.node_id,
            region: request.region,
            stream_id: request.stream_id,
            stream_id_text,
            target_text: text,
            created_unix_ms,
            status: "accepted".to_owned(),
        };
        let copy = command.copy();
        self.commands.push(command);
        let ghost all = self.commands@;
        if self.commands.len() > CONTROL_HISTORY_LIMIT {
            let _ = self.commands.remove(0);
        }
        proof {
            assert(self.commands@ =~= last_of(all, CONTROL_HISTORY_LIMIT as int));
        }
        copy
    }

    /// The latest commands, the latest first.
    pub fn recent(&self) -> (r: Vec<ControlCommand>)
        ensures
            r@ == last_of(self.commands@, CONTROL_RECENT_LIMIT as int).reverse(),
    {
        let ghost tail = last_of(self.commands@, CONTROL_RECENT_LIMIT as int);
        let mut out: Vec<ControlCommand> = Vec::new();
        let mut i: usize = self.commands.len();
        while i > 0 && out.len() < CONTROL_RECENT_LIMIT
            invariant
                i <= self.commands.len(),
                out@.len() == self.commands@.len() - i,
                out@.len() <= CONTROL_RECENT_LIMIT,
                forall|j: int|
                    0 <= j < out@.len() ==> #[trigger] out@[j] == self.commands@[self.commands@.len()
                        - 1 - j],
            decreases i,
        {
            i = i - 1;
            out.push(self.commands[i].copy());
        }
        proof {
            assert(out@ =~= tail.reverse());
        }
        out
    }

    /// Puts a command in the place of the one with the same id, where there is one.
    pub fn replace(&mut self, command: ControlCommand)
        ensures
            ({
                let i = command_index(old(self).commands@, command.id);
                final(self).commands@ == (if i < old(self).commands@.len() {
                    old(self).commands@.update(i, command)
                } else {
                    old(self).commands@
                })
            }),
    {
        let ghost before = self.commands@;
        let mut i: usize = 0;
        proof {
            assert(before.skip(0) =~= before);
        }
        while i < self.commands.len()
            invariant
                before == old(self).commands@,
                self.commands@ == before,
                i <= self.commands.len(),
                command_index(before, command.id) == i + command_index(
                    before.skip(i as int),
                    command.id,
                ),
            decreases self.commands.len() - i,
        {
            proof {
                assert(before.skip(i as int)[0] == before[i as int]);
                assert(before.skip(i as int).skip(1) =~= before.skip(i + 1));
            }
            if self.commands[i].id == command.id {
                self.commands[i] = command;
                return;
            }
            i = i + 1;
        }
    }
}

/// Whether a request concerns a node: by the list of targets where there is one, else by the
/// node that it names, else by the region; a request that names nothing concerns every node.
pub open spec fn concerns(
    request: ControlRequest,
    targets: Seq<String>,
    node_id: Seq<char>,
    region: Seq<char>,
) -> bool {
    if targets.len() > 0 {
        views(targets).contains(node_id)
    } else if request.node_id is Some {
        (request.node_id->0)@ == node_id
    } else if request.region is Some {
        (request.region->0)@ == region
    } else {
        true
    }
}

fn contains_id(list: &Vec<String>, id: &str) -> (r: bool)
    ensures
        r == views(list@).contains(id@),
{
    let mut i: usize = 0;
    while i < list.len()
        invariant
            i <= list.len(),
            forall|j: int| 0 <= j < i ==> #[trigger] views(list@)[j] != id@,
        decreases list.len() - i,
    {
        assert(views(list@)[i as int] == list@[i as int]@);
        if same_text(list[i].as_str(), id) {
            return true;
        }
        i = i + 1;
    }
    false
}

/// Whether a request concerns a node.
pub fn control_targets_local(
    request: &ControlRequest,
    target_node_ids: &Vec<String>,
    node_id: &str,
    region: &str,
) -> (r: bool)
    ensures
        r == concerns(*request, target_node_ids@, node_id@, region@),
{
    if target_node_ids.len() > 0 {
        return contains_id(target_node_ids, node_id);
    }
    match &request.node_id {
        Some(target) => {
            return same_text(target.as_str(), node_id);
        },
        None => {},
    }
    match &request.region {
        Some(target) => same_text(target.as_str(), region),
        None => true,
    }
}

/// A node that a request may be sent to.
#[derive(Debug)]
pub struct NodePlace {
    pub node_id: String,
    pub region: String,
}

/// Whether texts are listed in order, each once.
pub open spec fn strictly_ordered(list: Seq<Seq<char>>) -> bool {
    forall|i: int, j: int|
        0 <= i < j < list.len() ==> text_le(#[trigger] list[i], #[trigger] list[j]) && list[i]
            != list[j]
}

/// Whether a node of a region is listed.
pub open spec fn in_region(places: Seq<NodePlace>, region: Seq<char>, id: Seq<char>) -> bool {
    exists|i: int|
        0 <= i < places.len() && (#[trigger] places[i]).region@ == region && places[i].node_id@
            == id
}

/// The nodes of a region, in order, each once.
pub fn nodes_of_region(places: &Vec<NodePlace>, region: &str) -> (r: Vec<String>)
    ensures
        strictly_ordered(views(r@)),
        forall|id: Seq<char>| #[trigger]
            views(r@).contains(id) <==> in_region(places@, region@, id),
{
    let mut out: Vec<String> = Vec::new();
    let mut i: usize = 0;
    while i < places.len()
        invariant
            i <= places.len(),
            strictly_ordered(views(out@)),
            forall|id: Seq<char>| #[trigger]
                views(out@).contains(id) <==> in_region(places@.take(i as int), region@, id),
        decreases places.len() - i,
    {
        let ghost t = places@.take(i as int);
        let ghost u = places@.take(i + 1);
        let ghost place = places@[i as int];
        proof {
            assert forall|id: Seq<char>| in_region(u, region@, id) <==> in_region(t, region@, id)
                || (place.region@ == region@ && place.node_id@ == id) by {
                if in_region(u, region@, id) {
                    let j = choose|j: int|
                        0 <= j < u.len() && (#[trigger] u[j]).region@ == region@ && u[j].node_id@
                            == id;
                    if j < i {
                        assert(t[j] == u[j]);
                    }
                }
                if in_region(t, region@, id) {
                    let j = choose|j: int|
                        0 <= j < t.len() && (#[trigger] t[j]).region@ == region@ && t[j].node_id@
                            == id;
                    assert(u[j] == t[j]);
                }
                assert(u[i as int] == place);
            }
        }
        if same_text(places[i].region.as_str(), region) {
            insert_id(&mut out, &places[i].node_id);
        }
        i = i + 1;
    }
    proof {
        assert(places@.take(i as int) =~= places@);
    }
    out
}

/// Puts a text into an ordered list, unless it is there.
fn insert_id(list: &mut Vec<String>, id: &String)
    requires
        strictly_ordered(views(old(list)@)),
    ensures
        strictly_ordered(views(final(list)@)),
        forall|other: Seq<char>| #[trigger]
            views(final(list)@).contains(other) <==> views(old(list)@).contains(other) || other
                == id@,
{
    let ghost before = views(list@);
    if contains_id(list, id.as_str()) {
        return;
    }
    let mut p: usize = list.len();
    while p > 0 && !text_not_after(list[p - 1].as_str(), id.as_str())
        invariant
            before == views(list@),
            p <= list.len(),
            forall|j: int| p <= j < before.len() ==> !text_le(#[trigger] before[j], id@),
        decreases p,
    {
        assert(before[p - 1] == list@[p - 1]@);
        p = p - 1;
    }
    assert(p > 0 ==> before[p - 1] == list@[p - 1]@);
    list.insert(p, id.clone());
    proof {
        let after = views(list@);
        assert(after =~= before.insert(p as int, id@));
        assert forall|i: int, j: int| 0 <= i < j < after.len() implies text_le(
            #[trigger] after[i],
            #[trigger] after[j],
        ) && after[i] != after[j] by {
            let x = if i < p {
                i
            } else {
                i - 1
            };
            let y = if j < p {
                j
            } else {
                j - 1
            };
            if i == p {
                assert(before[y] == after[j]);
                assert(before.contains(before[y]));
                crate::order::lemma_text_total(before[y], id@);
            } else if j == p {
                assert(before[x] == after[i]);
                assert(before.contains(before[x]));
                assert(text_le(before[p - 1], id@));
                if x < p - 1 {
                    assert(text_le(before[x], before[p - 1]));
                    crate::order::lemma_text_transitive(before[x], before[p - 1], id@);
                }
            } else {
                assert(text_le(before[x], before[y]) && before[x] != before[y]);
            }
        }
        assert forall|other: Seq<char>| #[trigger] after.contains(other) <==> before.contains(other)
            || other == id@ by {
            if before.contains(other) {
                let j = choose|j: int| 0 <= j < before.len() && before[j] == other;
                let k = if j < p {
                    j
                } else {
                    j + 1
                };
                assert(after[k] == other);
            }
            assert(after[p as int] == id@);
            if after.contains(other) && other != id@ {
                let k = choose|k: int| 0 <= k < after.len() && after[k] == other;
                let j = if k < p {
                    k
                } else {
                    k - 1
                };
                assert(before[j] == other);
            }
        }
    }
}

/// The nodes that a request is sent to: the one that it names, or those of its region; a
/// provisioning request is sent to none, and so is one that names neither.
pub fn selected_control_target_node_ids(
    kind: ControlKind,
    request: &ControlRequest,
    places: &Vec<NodePlace>,
) -> (r: Vec<String>)
    ensures
        kind is ProvisionNode || (request.node_id is None && request.region is None) ==> r@.len()
            == 0,
        !(kind is ProvisionNode) && request.node_id is Some ==> r@ == seq![request.node_id->0],
        !(kind is ProvisionNode) && request.node_id is None && request.region is Some ==> {
            &&& strictly_ordered(views(r@))
            &&& forall|id: Seq<char>| #[trigger]
                views(r@).contains(id) <==> in_region(places@, (request.region->0)@, id)
        },
{
    if kind == ControlKind::ProvisionNode {
        return Vec::new();
    }
    match &request.node_id {
        Some(node_id) => {
            let mut out: Vec<String> = Vec::new();
            out.push(node_id.clone());
            proof {
                assert(out@ =~= seq![request.node_id->0]);
            }
            return out;
        },
        None => {},
    }
    match &request.region {
        Some(region) => nodes_of_region(places, region.as_str()),
        None => Vec::new(),
    }
}

/// What a node does about a request.
#[derive(Clone, Copy, Debug, PartialEq, Eq, Structural)]
pub enum LocalControl {
    /// Nothing: it concerns others.
    Elsewhere,
    /// Nothing: the stream is missing.
    MissingStream,
    /// Make room for the stream and ask for a replica of it.
    Warm { stream_id: u64 },
    /// Drain.
    Drain,
    /// Nothing: provisioning happens where the command originated.
    RemoteProvision,
    /// Provision a node.
    Provision,
    /// Nothing: replica requests are made, not obeyed.
    ReplicaIgnored,
}

/// What a node does about a request.
pub open spec fn local_control(
    kind: ControlKind,
    request: ControlRequest,
    originated_locally: bool,
    targets: Seq<String>,
    node_id: Seq<char>,
    region: Seq<char>,
) -> LocalControl {
    if !(kind is ProvisionNode) && !concerns(request, targets, node_id, region) {
        LocalControl::Elsewhere
    } else {
        match kind {
            ControlKind::WarmStream => match request.stream_id {
                Some(stream_id) => LocalControl::Warm { stream_id },
                None => LocalControl::MissingStream,
            },
            ControlKind::CloseNode => LocalControl::Drain,
            ControlKind::ProvisionNode => if originated_locally {
                LocalControl::Provision
            } else {
                LocalControl::RemoteProvision
            },
            ControlKind::ReplicaRequest => LocalControl::ReplicaIgnored,
        }
    }
}

/// Decides what a node does about a request.
pub fn apply_control_locally(
    kind: ControlKind,
    request: &ControlRequest,
    originated_locally: bool,
    target_node_ids: &Vec<String>,
    node_id: &str,
    region: &str,
) -> (r: LocalControl)
    ensures
        r == local_control(
            kind,
            *request,
            originated_locally,
            target_node_ids@,
            node_id@,
            region@,
        ),
{
    if kind != ControlKind::ProvisionNode && !control_targets_local(
        request,
        target_node_ids,
        node_id,
        region,
    ) {
        return LocalControl::Elsewhere;
    }
    match kind {
        ControlKind::WarmStream => match request.stream_id {
            Some(stream_id) => LocalControl::Warm { stream_id },
            None => LocalControl::MissingStream,
        },
        ControlKind::CloseNode => LocalControl::Drain,
        ControlKind::ProvisionNode => if originated_locally {
            LocalControl::Provision
        } else {
            LocalControl::RemoteProvision
        },
        ControlKind::ReplicaRequest => LocalControl::ReplicaIgnored,
    }
}

/// The status of what a node did, as text; provisioning reports its own.
pub open spec fn local_status(step: LocalControl, provisioned: Seq<char>) -> Seq<char> {
    match step {
        LocalControl::Elsewhere => "local skipped: target does not match"@,
        LocalControl::MissingStream => "local warm skipped: missing stream id"@,
        LocalControl::Warm { .. } => "local warm requested"@,
        LocalControl::Drain => "local close requested: draining"@,
        LocalControl::RemoteProvision => {
            "remote provision noted: executor only runs at command origin"@
        },
        LocalControl::Provision => provisioned,
        LocalControl::ReplicaIgnored => "local replica request command ignored"@,
    }
}

/// The status of what a node did.
pub fn local_control_status(step: LocalControl, provisioned: &str) -> (r: String)
    ensures
        r@ == local_status(step, provisioned@),
{
    match step {
        LocalControl::Elsewhere => "local skipped: target does not match".to_owned(),
        LocalControl::MissingStream => "local warm skipped: missing stream id".to_owned(),
        LocalControl::Warm { .. } => "local warm requested".to_owned(),
        LocalControl::Drain => "local close requested: draining".to_owned(),
        LocalControl::RemoteProvision => {
            "remote provision noted: executor only runs at command origin".to_owned()
        },
        LocalControl::Provision => provisioned.to_owned(),
        LocalControl::ReplicaIgnored => "local replica request command ignored".to_owned(),
    }
}

/// What became of the publication of a command.
#[derive(Debug)]
pub enum PublishOutcome {
    Published,
    NoPublisher,
    Failed { error: String },
}

/// The status of a publication, as text.
pub open spec fn publish_status(outcome: PublishOutcome, targets: Seq<String>) -> Seq<char> {
    match outcome {
        PublishOutcome::Published => if targets.len() == 0 {
            "published AVMC control"@
        } else {
            "published AVMC control to "@ + joined(views(targets), ","@)
        },
        PublishOutcome::NoPublisher => "no tcp-changes control publisher"@,
        PublishOutcome::Failed { error } => "control publish failed: "@ + error@,
    }
}

/// The status of a command: what the node did, and what became of the publication where there
/// was one.
pub open spec fn command_status(
    local: Seq<char>,
    publication: Option<PublishOutcome>,
    targets: Seq<String>,
) -> Seq<char> {
    match publication {
        Some(outcome) => local + "; "@ + publish_status(outcome, targets),
        None => local,
    }
}

/// The status of a command.
pub fn execute_control_status(
    local: &str,
    publication: &Option<PublishOutcome>,
    target_node_ids: &Vec<String>,
) -> (r: String)
    ensures
        r@ == command_status(local@, *publication, target_node_ids@),
{
    match publication {
        None => local.to_owned(),
        Some(outcome) => {
            let status = match outcome {
                PublishOutcome::Published => if target_node_ids.len() == 0 {
                    "published AVMC control".to_owned()
                } else {
                    let mut text = "published AVMC control to ".to_owned();
                    text.append(join(target_node_ids, ",").as_str());
                    text
                },
                PublishOutcome::NoPublisher => "no tcp-changes control publisher".to_owned(),
                PublishOutcome::Failed { error } => {
                    let mut text = "control publish failed: ".to_owned();
                    text.append(error.as_str());
                    text
                },
            };
            let mut out = local.to_owned();
            out.append("; ");
            out.append(status.as_str());
            out
        },
    }
}

/// A command on its way between nodes.
#[derive(Debug)]
pub struct ControlEnvelope {
    pub id: u64,
    pub origin_node_id: String,
    pub kind: ControlKind,
    pub request: ControlRequest,
    pub target_node_ids: Vec<String>,
}

/// Whether a node takes up a command of another: its own are ignored, and so are those that
/// concern others.
pub fn accepts_envelope(envelope: &ControlEnvelope, node_id: &str, region: &str) -> (r: bool)
    ensures
        r == (envelope.origin_node_id@ != node_id@ && concerns(
            envelope.request,
            envelope.target_node_ids@,
            node_id@,
            region@,
        )),
{
    !same_text(envelope.origin_node_id.as_str(), node_id) && control_targets_local(
        &envelope.request,
        &envelope.target_node_ids,
        node_id,
        region,
    )
}

/// The status of a command of another node, as text.
pub open spec fn received_text(origin: Seq<char>, id: u64, status: Seq<char>) -> Seq<char> {
    "received from "@ + origin + " command "@ + decimal(id as nat) + "; "@ + status
}

/// The status of a command of another node.
pub fn received_status(origin_node_id: &str, id: u64, status: &str) -> (r: String)
    ensures
        r@ == received_text(origin_node_id@, id, status@),
{
    let mut out = "received from ".to_owned();
    out.append(origin_node_id);
    out.append(" command ");
    out.append(decimal_text(id).as_str());
    out.append("; ");
    out.append(status);
    out
}

/// A node is provisioned only where the command originated, a node drains or warms a stream
/// only where the command concerns it, and requests for replicas are never obeyed.
pub proof fn commands_stay_where_they_belong(
    kind: ControlKind,
    request: ControlRequest,
    originated_locally: bool,
    targets: Seq<String>,
    node_id: Seq<char>,
    region: Seq<char>,
)
    ensures
        ({
            let step = local_control(kind, request, originated_locally, targets, node_id, region);
            &&& step is Provision <==> kind is ProvisionNode && originated_locally
            &&& step is Drain <==> kind is CloseNode && concerns(request, targets, node_id, region)
            &&& step is Warm <==> kind is WarmStream && request.stream_id is Some && concerns(
                request,
                targets,
                node_id,
                region,
            )
        }),
{
}

/// A command to a region that was sent to the nodes of the region concerns those nodes and no
/// others, wherever they say they are.
pub proof fn regional_commands_reach_their_region(
    request: ControlRequest,
    targets: Seq<String>,
    places: Seq<NodePlace>,
    node_id: Seq<char>,
    region: Seq<char>,
)
    requires
        request.region is Some,
        targets.len() > 0,
        forall|id: Seq<char>| #[trigger]
            views(targets).contains(id) <==> in_region(places, (request.region->0)@, id),
    ensures
        concerns(request, targets, node_id, region) <==> in_region(
            places,
            (request.region->0)@,
            node_id,
        ),
{
    assert(views(targets).contains(node_id) <==> in_region(
        places,
        (request.region->0)@,
        node_id,
    ));
}

/// Whether a character is a given small letter or its capital.
pub open spec fn is_letter(c: char, small: char) -> bool {
    c == small || ('A' <= c && c <= 'Z' && c as int + 32 == small as int)
}

/// Whether a word stands at a place of a text, in capitals or small letters.
pub open spec fn says_at(text: Seq<char>, word: Seq<char>, k: int) -> bool {
    forall|j: int| 0 <= j < word.len() ==> is_letter(text[k + j], #[trigger] word[j])
}

/// Whether a text holds a word, in capitals or small letters.
pub open spec fn says(text: Seq<char>, word: Seq<char>) -> bool {
    exists|k: int| 0 <= k <= text.len() - word.len() && #[trigger] says_at(text, word, k)
}

proof fn lemma_says(text: Seq<char>, word: Seq<char>)
    requires
        forall|j: int| 0 <= j < word.len() ==> !('A' <= #[trigger] word[j] && word[j] <= 'Z'),
    ensures
        says(text, word) == occurs_in(word, lowered(text)),
{
    let low = lowered(text);
    if says(text, word) {
        let k = choose|k: int|
            0 <= k <= text.len() - word.len() && #[trigger] says_at(text, word, k);
        assert forall|j: int| 0 <= j < word.len() implies low[k + j] == #[trigger] word[j] by {
            assert(is_letter(text[k + j], word[j]));
        }
        assert(low.subrange(k, k + word.len()) =~= word);
    }
    if occurs_in(word, low) {
        let k = choose|i: int|
            0 <= i <= low.len() - word.len() && #[trigger] low.subrange(i, i + word.len()) == word;
        assert forall|j: int| 0 <= j < word.len() implies is_letter(
            text[k + j],
            #[trigger] word[j],
        ) by {
            assert(low.subrange(k, k + word.len())[j] == low[k + j]);
            assert(low[k + j] == lower_char(text[k + j]));
        }
        assert(says_at(text, word, k));
    }
}

/// A command failed where its status says so: by the word failed, timed out or error, in capitals
/// or small letters. It was skipped where its status says that and none of these.
pub proof fn statuses_tell_outcomes(status: Seq<char>)
    ensures
        outcome_of(status) == CommandOutcome::Failed <==> says(status, "failed"@) || says(
            status,
            "timed out"@,
        ) || says(status, "error"@),
        outcome_of(status) == CommandOutcome::Skipped <==> says(status, "skipped"@) && !says(
            status,
            "failed"@,
        ) && !says(status, "timed out"@) && !says(status, "error"@),
{
    reveal_strlit("failed");
    reveal_strlit("timed out");
    reveal_strlit("error");
    reveal_strlit("skipped");
    lemma_says(status, "failed"@);
    lemma_says(status, "timed out"@);
    lemma_says(status, "error"@);
    lemma_says(status, "skipped"@);
}

/// The path of an operation is its code with dashes, under the path of the control interface; a
/// replica request has none.
pub proof fn operations_have_their_paths(kind: ControlKind, path: Seq<char>)
    ensures
        kind_of_path(path) == Some(kind) <==> !(kind is ReplicaRequest) && path
            == "/api/control/"@ + kind_code(kind).map_values(
            |c: char|
                if c == '_' {
                    '-'
                } else {
                    c
                },
        ),
{
    reveal_strlit("/api/control/");
    reveal_strlit("/api/control/provision-node");
    reveal_strlit("/api/control/close-node");
    reveal_strlit("/api/control/warm-stream");
    reveal_strlit("provision_node");
    reveal_strlit("close_node");
    reveal_strlit("warm_stream");
    let dashed = kind_code(kind).map_values(
        |c: char|
            if c == '_' {
                '-'
            } else {
                c
            },
    );
    match kind {
        ControlKind::ProvisionNode => {
            assert("/api/control/"@ + dashed =~= "/api/control/provision-node"@);
        },
        ControlKind::CloseNode => {
            assert("/api/control/"@ + dashed =~= "/api/control/close-node"@);
            assert("/api/control/close-node"@.len() != "/api/control/provision-node"@.len());
        },
        ControlKind::WarmStream => {
            assert("/api/control/"@ + dashed =~= "/api/control/warm-stream"@);
            assert("/api/control/warm-stream"@.len() != "/api/control/provision-node"@.len());
            assert("/api/control/warm-stream"@.len() != "/api/control/close-node"@.len());
        },
        ControlKind::ReplicaRequest => {},
    }
}

/// The history keeps the latest commands, in their order and with the newest at its end, and no
/// more than its limit; the recent ones are told newest first.
pub proof fn the_latest_commands_are_kept(
    commands: Seq<ControlCommand>,
    command: ControlCommand,
    limit: int,
)
    requires
        limit > 0,
    ensures
        ({
            let all = commands.push(command);
            let kept = last_of(all, limit);
            &&& kept.len() <= limit
            &&& kept.last() == command
            &&& all.len() <= limit ==> kept == all
            &&& all.len() > limit ==> kept.len() == limit && forall|i: int|
                0 <= i < limit ==> #[trigger] kept[i] == all[all.len() - limit + i]
            &&& forall|i: int|
                0 <= i < kept.len() ==> #[trigger] kept.reverse()[i] == all[all.len() - 1 - i]
        }),
{
}

/// A command is found by its number, the first of that number.
pub proof fn commands_are_found_by_number(commands: Seq<ControlCommand>, id: u64)
    ensures
        0 <= command_index(commands, id) <= commands.len(),
        command_index(commands, id) < commands.len() ==> commands[command_index(commands, id)].id
            == id,
        forall|j: int| 0 <= j < command_index(commands, id) ==> (#[trigger] commands[j]).id != id,
    decreases commands.len(),
{
    if commands.len() > 0 && commands[0].id != id {
        let rest = commands.skip(1);
        commands_are_found_by_number(rest, id);
        assert forall|j: int| 0 <= j < command_index(commands, id) implies (
        #[trigger] commands[j]).id != id by {
            if j > 0 {
                assert(rest[j - 1] == commands[j]);
            }
        }
    }
}

/// A command with targets concerns those nodes and no others; one without concerns its node, else
/// its region, else every node.
pub proof fn commands_concern_their_targets(
    request: ControlRequest,
    targets: Seq<String>,
    node_id: Seq<char>,
    region: Seq<char>,
)
    ensures
        targets.len() > 0 ==> (concerns(request, targets, node_id, region) <==> exists|i: int|
            0 <= i < targets.len() && (#[trigger] targets[i])@ == node_id),
        targets.len() == 0 && request.node_id is Some ==> (concerns(
            request,
            targets,
            node_id,
            region,
        ) <==> (request.node_id->0)@ == node_id),
        targets.len() == 0 && request.node_id is None && request.region is Some ==> (concerns(
            request,
            targets,
            node_id,
            region,
        ) <==> (request.region->0)@ == region),
        targets.len() == 0 && request.node_id is None && request.region is None ==> concerns(
            request,
            targets,
            node_id,
            region,
        ),
{
    if exists|i: int| 0 <= i < targets.len() && (#[trigger] targets[i])@ == node_id {
        let i = choose|i: int| 0 <= i < targets.len() && (#[trigger] targets[i])@ == node_id;
        assert(views(targets)[i] == node_id);
    }
    if views(targets).contains(node_id) {
        let i = choose|i: int| 0 <= i < views(targets).len() && views(targets)[i] == node_id;
        assert(targets[i]@ == node_id);
    }
}

/// What a command comes to on a node is told in words: that it was skipped where it was not for this
/// node or lacks its stream, and that it failed where its publication failed, whatever is told
/// besides.
pub proof fn statuses_tell_what_became_of_commands(
    provisioned: Seq<char>,
    local: Seq<char>,
    error: String,
    targets: Seq<String>,
)
    ensures
        says(local_status(LocalControl::Elsewhere, provisioned), "skipped"@),
        says(local_status(LocalControl::MissingStream, provisioned), "skipped"@),
        local_status(LocalControl::Provision, provisioned) == provisioned,
        outcome_of(command_status(local, Some(PublishOutcome::Failed { error }), targets))
            == CommandOutcome::Failed,
        command_status(local, None, targets) == local,
        outcome_of(local) == CommandOutcome::Failed ==> outcome_of(
            command_status(local, Some(PublishOutcome::Published), targets),
        ) == CommandOutcome::Failed,
{
    let elsewhere = local_status(LocalControl::Elsewhere, provisioned);
    let missing = local_status(LocalControl::MissingStream, provisioned);
    let failed = command_status(local, Some(PublishOutcome::Failed { error }), targets);
    let told = command_status(local, Some(PublishOutcome::Published), targets);
    statuses_tell_outcomes(failed);
    statuses_tell_outcomes(told);
    statuses_tell_outcomes(local);
    reveal_strlit("failed");
    reveal_strlit("skipped");
    reveal_strlit("timed out");
    reveal_strlit("error");
    reveal_strlit("local skipped: target does not match");
    reveal_strlit("local warm skipped: missing stream id");
    reveal_strlit("control publish failed: ");
    reveal_strlit("; ");
    assert(says_at(elsewhere, "skipped"@, 6));
    assert(says_at(missing, "skipped"@, 11));
    assert(says_at(failed, "failed"@, local.len() as int + 2 + 16));
    assert(told.take(local.len() as int) =~= local);
    lemma_says_more(local, told, "failed"@);
    lemma_says_more(local, told, "timed out"@);
    lemma_says_more(local, told, "error"@);
}

proof fn lemma_says_more(text: Seq<char>, longer: Seq<char>, word: Seq<char>)
    requires
        text.len() <= longer.len(),
        longer.take(text.len() as int) == text,
    ensures
        says(text, word) ==> says(longer, word),
{
    if says(text, word) {
        let k = choose|k: int|
            0 <= k <= text.len() - word.len() && #[trigger] says_at(text, word, k);
        assert forall|j: int| 0 <= j < word.len() implies is_letter(
            longer[k + j],
            #[trigger] word[j],
        ) by {
            assert(longer.take(text.len() as int)[k + j] == longer[k + j]);
        }
        assert(says_at(longer, word, k));
    }
}

/// The target of a request is told by the parts that it gives, in one order, and as global where it
/// gives none.
pub proof fn targets_are_told_by_their_parts(request: ControlRequest)
    ensures
        ({
            let node = request.node_id is Some && (request.node_id->0)@.len() > 0;
            let region = request.region is Some && (request.region->0)@.len() > 0;
            let stream = request.stream_id is Some;
            let node_text = "node "@ + (request.node_id->0)@;
            let region_text = "region "@ + (request.region->0)@;
            let stream_text = "stream "@ + decimal(request.stream_id->0 as nat);
            let text = target_text(request);
            &&& !node && !region && !stream ==> text == "global"@
            &&& node && !region && !stream ==> text == node_text
            &&& !node && region && !stream ==> text == region_text
            &&& !node && !region && stream ==> text == stream_text
            &&& node && region && !stream ==> text == node_text + " / "@ + region_text
            &&& node && !region && stream ==> text == node_text + " / "@ + stream_text
            &&& !node && region && stream ==> text == region_text + " / "@ + stream_text
            &&& node && region && stream ==> text == node_text + " / "@ + region_text + " / "@
                + stream_text
        }),
{
    let parts = target_parts(request);
    reveal_with_fuel(joined, 3);
    if parts.len() == 2 {
        assert(parts.drop_last() =~= seq![parts[0]]);
    }
    if parts.len() == 3 {
        assert(parts.drop_last() =~= seq![parts[0], parts[1]]);
        assert(parts.drop_last().drop_last() =~= seq![parts[0]]);
    }
}

/// What a node does with a command is told by what it does, and each of its ways in its own words.
pub proof fn local_steps_are_told_apart(stream_id: u64, provisioned: Seq<char>)
    ensures
        local_status(LocalControl::Warm { stream_id }, provisioned) == "local warm requested"@,
        local_status(LocalControl::Drain, provisioned) == "local close requested: draining"@,
        local_status(LocalControl::RemoteProvision, provisioned)
            == "remote provision noted: executor only runs at command origin"@,
        local_status(LocalControl::ReplicaIgnored, provisioned)
            == "local replica request command ignored"@,
        local_status(LocalControl::Elsewhere, provisioned)
            == "local skipped: target does not match"@,
        local_status(LocalControl::MissingStream, provisioned)
            == "local warm skipped: missing stream id"@,
{
}

/// A publication is told with those it went to, in their order; one without a publisher or that
/// failed is told as that. It stands behind what was done here.
pub proof fn publications_are_told_with_their_targets(
    local: Seq<char>,
    target: String,
    other: String,
    error: String,
)
    ensures
        publish_status(PublishOutcome::Published, Seq::empty()) == "published AVMC control"@,
        publish_status(PublishOutcome::Published, seq![target]) == "published AVMC control to "@
            + target@,
        publish_status(PublishOutcome::Published, seq![target, other])
            == "published AVMC control to "@ + (target@ + ","@ + other@),
        publish_status(PublishOutcome::NoPublisher, seq![target])
            == "no tcp-changes control publisher"@,
        publish_status(PublishOutcome::Failed { error }, seq![target])
            == "control publish failed: "@ + error@,
        command_status(local, Some(PublishOutcome::NoPublisher), seq![target]) == local + "; "@
            + "no tcp-changes control publisher"@,
{
    reveal_with_fuel(joined, 3);
    assert(views(seq![target]) =~= seq![target@]);
    assert(views(seq![target, other]) =~= seq![target@, other@]);
    assert(seq![target@, other@].drop_last() =~= seq![target@]);
}

/// Operations have codes and labels of their own.
pub proof fn operations_have_their_names(a: ControlKind, b: ControlKind)
    ensures
        kind_code(a) == kind_code(b) ==> a == b,
        kind_label(a) == kind_label(b) ==> a == b,
        kind_label(ControlKind::ProvisionNode) == "Provision node"@,
        kind_label(ControlKind::CloseNode) == "Close node"@,
        kind_label(ControlKind::WarmStream) == "Warm stream"@,
        kind_label(ControlKind::ReplicaRequest) == "Replica request"@,
        kind_code(ControlKind::ReplicaRequest) == "replica_request"@,
{
    reveal_strlit("provision_node");
    reveal_strlit("close_node");
    reveal_strlit("warm_stream");
    reveal_strlit("replica_request");
    reveal_strlit("Provision node");
    reveal_strlit("Close node");
    reveal_strlit("Warm stream");
    reveal_strlit("Replica request");
    assert("provision_node"@[0] == 'p' && "close_node"@[0] == 'c' && "warm_stream"@[0] == 'w');
    assert("replica_request"@[0] == 'r');
    assert("Provision node"@[0] == 'P' && "Close node"@[0] == 'C' && "Warm stream"@[0] == 'W');
    assert("Replica request"@[0] == 'R');
}

/// A command that was received is told with where it came from, its number and what became of it.
pub proof fn received_commands_are_told_with_their_origin(
    origin: Seq<char>,
    id: u64,
    status: Seq<char>,
)
    ensures
        received_text(origin, id, status) == "received from "@ + origin + " command "@ + decimal(
            id as nat,
        ) + "; "@ + status,
        outcome_of(status) == CommandOutcome::Failed ==> outcome_of(
            received_text(origin, id, status),
        ) == CommandOutcome::Failed,
{
    let text = received_text(origin, id, status);
    let front = "received from "@ + origin + " command "@ + decimal(id as nat) + "; "@;
    statuses_tell_outcomes(status);
    statuses_tell_outcomes(text);
    lemma_says_behind(front, status, "failed"@);
    lemma_says_behind(front, status, "timed out"@);
    lemma_says_behind(front, status, "error"@);
}

proof fn lemma_says_behind(front: Seq<char>, text: Seq<char>, word: Seq<char>)
    ensures
        says(text, word) ==> says(front + text, word),
{
    if says(text, word) {
        let k = choose|k: int|
            0 <= k <= text.len() - word.len() && #[trigger] says_at(text, word, k);
        let at = front.len() + k;
        assert forall|j: int| 0 <= j < word.len() implies is_letter(
            (front + text)[at + j],
            #[trigger] word[j],
        ) by {
            assert((front + text)[at + j] == text[k + j]);
        }
        assert(says_at(front + text, word, at));
    }
}

} // verus!

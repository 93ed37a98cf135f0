//! Policy proposals: what an agent submits, and the policy chunks that it asks
//! for.

use vstd::prelude::*;

verus! {

// What an agent submits.

/// An L7 request that a proposal asks to allow.
#[derive(Debug)]
pub struct L7AllowJson {
    pub method: String,
    pub path: String,
    pub command: String,
}

/// An L7 rule of a proposal.
#[derive(Debug)]
pub struct L7RuleJson {
    pub allow: L7AllowJson,
}

/// An L7 request that a proposal asks to deny.
#[derive(Debug)]
pub struct L7DenyRuleJson {
    pub method: String,
    pub path: String,
    pub command: String,
}

/// A program that a proposal is for.
#[derive(Debug)]
pub struct NetworkBinaryJson {
    pub path: String,
}

/// An endpoint that a proposal asks for.
#[derive(Debug)]
pub struct NetworkEndpointJson {
    pub host: String,
    pub port: u32,
    pub ports: Vec<u32>,
    pub protocol: String,
    pub tls: String,
    pub enforcement: String,
    pub access: String,
    pub rules: Vec<L7RuleJson>,
    pub allowed_ips: Vec<String>,
    pub deny_rules: Vec<L7DenyRuleJson>,
    pub allow_encoded_slash: bool,
}

/// A network rule that a proposal asks for.
#[derive(Debug)]
pub struct NetworkPolicyRuleJson {
    pub name: Option<String>,
    pub endpoints: Vec<NetworkEndpointJson>,
    pub binaries: Vec<NetworkBinaryJson>,
}

/// An `addRule` operation.
#[derive(Debug)]
pub struct AddNetworkRuleJson {
    pub rule_name: Option<String>,
    pub rule: NetworkPolicyRuleJson,
}

/// One operation of a proposal.
#[derive(Debug)]
pub struct ProposalOperation {
    /// What stands under `addRule`, if the operation has that: the rule, or
    /// why it is not one.
    pub add_rule: Option<Result<AddNetworkRuleJson, String>>,
}

/// A proposal.
#[derive(Debug)]
pub struct ProposalRequest {
    pub intent_summary: Option<String>,
    pub operations: Vec<ProposalOperation>,
}

// What is handed to the gateway.

/// An L7 request that is allowed.
#[derive(Debug)]
pub struct L7Allow {
    pub method: String,
    pub path: String,
    pub command: String,
    /// What the query parameters have to be, by name.
    pub query: Vec<(String, String)>,
}

/// An L7 rule.
#[derive(Debug)]
pub struct L7Rule {
    pub allow: Option<L7Allow>,
}

/// An L7 request that is denied.
#[derive(Debug)]
pub struct L7DenyRule {
    pub method: String,
    pub path: String,
    pub command: String,
    /// What the query parameters have to be, by name.
    pub query: Vec<(String, String)>,
}

/// A program.
#[derive(Debug)]
pub struct NetworkBinary {
    pub path: String,
}

/// An endpoint.
#[derive(Debug)]
pub struct NetworkEndpoint {
    pub host: String,
    pub port: u32,
    pub protocol: String,
    pub tls: String,
    pub enforcement: String,
    pub access: String,
    pub rules: Vec<L7Rule>,
    pub allowed_ips: Vec<String>,
    pub ports: Vec<u32>,
    pub deny_rules: Vec<L7DenyRule>,
    pub allow_encoded_slash: bool,
}

/// A network rule.
#[derive(Debug)]
pub struct NetworkPolicyRule {
    pub name: String,
    pub endpoints: Vec<NetworkEndpoint>,
    pub binaries: Vec<NetworkBinary>,
}

/// A change of the policy, for the developer to approve or reject.
#[derive(Debug)]
pub struct PolicyChunk {
    pub id: String,
    pub status: String,
    pub rule_name: String,
    pub proposed_rule: Option<NetworkPolicyRule>,
    pub rationale: String,
    pub security_notes: String,
    /// The confidence in the proposal, in hundredths.
    pub confidence_hundredths: u32,
    pub denial_summary_ids: Vec<String>,
    pub created_at_ms: i64,
    pub decided_at_ms: i64,
    pub stage: String,
    pub supersedes_chunk_id: String,
    pub hit_count: i32,
    pub first_seen_ms: i64,
    pub last_seen_ms: i64,
    pub binary: String,
}

// What these say.

/// The texts of strings.
pub open spec fn texts(strings: Seq<String>) -> Seq<Seq<char>> {
    strings.map_values(|s: String| s@)
}

/// The text of a string, if it is there.
pub open spec fn string_view(string: Option<String>) -> Option<Seq<char>> {
    match string {
        Some(s) => Some(s@),
        None => None,
    }
}

/// What is asked of an L7 request.
#[verifier::ext_equal]
pub struct L7RequestView {
    pub method: Seq<char>,
    pub path: Seq<char>,
    pub command: Seq<char>,
}

/// What is asked of an L7 request and of its query parameters.
#[verifier::ext_equal]
pub struct L7MatchView {
    pub request: L7RequestView,
    pub query: Seq<(Seq<char>, Seq<char>)>,
}

/// An endpoint that a proposal asks for.
#[verifier::ext_equal]
pub struct EndpointJsonView {
    pub host: Seq<char>,
    pub port: u32,
    pub ports: Seq<u32>,
    pub protocol: Seq<char>,
    pub tls: Seq<char>,
    pub enforcement: Seq<char>,
    pub access: Seq<char>,
    pub rules: Seq<L7RequestView>,
    pub allowed_ips: Seq<Seq<char>>,
    pub deny_rules: Seq<L7RequestView>,
    pub allow_encoded_slash: bool,
}

/// A network rule that a proposal asks for, its programs by their paths.
#[verifier::ext_equal]
pub struct RuleJsonView {
    pub name: Option<Seq<char>>,
    pub endpoints: Seq<EndpointJsonView>,
    pub binaries: Seq<Seq<char>>,
}

/// An `addRule` operation.
#[verifier::ext_equal]
pub struct AddRuleView {
    pub rule_name: Option<Seq<char>>,
    pub rule: RuleJsonView,
}

/// A proposal, each operation by what stands under its `addRule`.
#[verifier::ext_equal]
pub struct RequestView {
    pub intent_summary: Option<Seq<char>>,
    pub operations: Seq<Option<Result<AddRuleView, Seq<char>>>>,
}

/// An endpoint.
#[verifier::ext_equal]
pub struct EndpointView {
    pub host: Seq<char>,
    pub port: u32,
    pub protocol: Seq<char>,
    pub tls: Seq<char>,
    pub enforcement: Seq<char>,
    pub access: Seq<char>,
    pub rules: Seq<Option<L7MatchView>>,
    pub allowed_ips: Seq<Seq<char>>,
    pub ports: Seq<u32>,
    pub deny_rules: Seq<L7MatchView>,
    pub allow_encoded_slash: bool,
}

/// A network rule, its programs by their paths.
#[verifier::ext_equal]
pub struct RuleView {
    pub name: Seq<char>,
    pub endpoints: Seq<EndpointView>,
    pub binaries: Seq<Seq<char>>,
}

/// A change of the policy.
#[verifier::ext_equal]
pub struct ChunkView {
    pub id: Seq<char>,
    pub status: Seq<char>,
    pub rule_name: Seq<char>,
    pub proposed_rule: Option<RuleView>,
    pub rationale: Seq<char>,
    pub security_notes: Seq<char>,
    pub confidence_hundredths: u32,
    pub denial_summary_ids: Seq<Seq<char>>,
    pub created_at_ms: i64,
    pub decided_at_ms: i64,
    pub stage: Seq<char>,
    pub supersedes_chunk_id: Seq<char>,
    pub hit_count: i32,
    pub first_seen_ms: i64,
    pub last_seen_ms: i64,
    pub binary: Seq<char>,
}

impl View for L7RuleJson {
    type V = L7RequestView;

    open spec fn view(&self) -> L7RequestView {
        L7RequestView {
            method: self.allow.method@,
            path: self.allow.path@,
            command: self.allow.command@,
        }
    }
}

impl View for L7DenyRuleJson {
    type V = L7RequestView;

    open spec fn view(&self) -> L7RequestView {
        L7RequestView { method: self.method@, path: self.path@, command: self.command@ }
    }
}

impl View for NetworkEndpointJson {
    type V = EndpointJsonView;

    open spec fn view(&self) -> EndpointJsonView {
        EndpointJsonView {
            host: self.host@,
            port: self.port,
            ports: self.ports@,
            protocol: self.protocol@,
            tls: self.tls@,
            enforcement: self.enforcement@,
            access: self.access@,
            rules: self.rules@.map_values(|rule: L7RuleJson| rule@),
            allowed_ips: texts(self.allowed_ips@),
            deny_rules: self.deny_rules@.map_values(|rule: L7DenyRuleJson| rule@),
            allow_encoded_slash: self.allow_encoded_slash,
        }
    }
}

impl View for NetworkPolicyRuleJson {
    type V = RuleJsonView;

    open spec fn view(&self) -> RuleJsonView {
        RuleJsonView {
            name: string_view(self.name),
            endpoints: self.endpoints@.map_values(|endpoint: NetworkEndpointJson| endpoint@),
            binaries: self.binaries@.map_values(|binary: NetworkBinaryJson| binary.path@),
        }
    }
}

impl View for AddNetworkRuleJson {
    type V = AddRuleView;

    open spec fn view(&self) -> AddRuleView {
        AddRuleView { rule_name: string_view(self.rule_name), rule: self.rule@ }
    }
}

impl View for ProposalOperation {
    type V = Option<Result<AddRuleView, Seq<char>>>;

    open spec fn view(&self) -> Option<Result<AddRuleView, Seq<char>>> {
        match self.add_rule {
            Some(Ok(add_rule)) => Some(Ok(add_rule@)),
            Some(Err(error)) => Some(Err(error@)),
            None => None,
        }
    }
}

impl View for ProposalRequest {
    type V = RequestView;

    open spec fn view(&self) -> RequestView {
        RequestView {
            intent_summary: string_view(self.intent_summary),
            operations: self.operations@.map_values(|operation: ProposalOperation| operation@),
        }
    }
}

/// What query parameters have to be.
pub open spec fn query_view(query: Seq<(String, String)>) -> Seq<(Seq<char>, Seq<char>)> {
    query.map_values(|pair: (String, String)| (pair.0@, pair.1@))
}

impl View for L7Rule {
    type V = Option<L7MatchView>;

    open spec fn view(&self) -> Option<L7MatchView> {
        match self.allow {
            Some(allow) => Some(
                L7MatchView {
                    request: L7RequestView {
                        method: allow.method@,
                        path: allow.path@,
                        command: allow.command@,
                    },
                    query: query_view(allow.query@),
                },
            ),
            None => None,
        }
    }
}

impl View for L7DenyRule {
    type V = L7MatchView;

    open spec fn view(&self) -> L7MatchView {
        L7MatchView {
            request: L7RequestView {
                method: self.method@,
                path: self.path@,
                command: self.command@,
            },
            query: query_view(self.query@),
        }
    }
}

impl View for NetworkEndpoint {
    type V = EndpointView;

    open spec fn view(&self) -> EndpointView {
        EndpointView {
            host: self.host@,
            port: self.port,
            protocol: self.protocol@,
            tls: self.tls@,
            enforcement: self.enforcement@,
            access: self.access@,
            rules: self.rules@.map_values(|rule: L7Rule| rule@),
            allowed_ips: texts(self.allowed_ips@),
            ports: self.ports@,
            deny_rules: self.deny_rules@.map_values(|rule: L7DenyRule| rule@),
            allow_encoded_slash: self.allow_encoded_slash,
        }
    }
}

impl View for NetworkPolicyRule {
    type V = RuleView;

    open spec fn view(&self) -> RuleView {
        RuleView {
            name: self.name@,
            endpoints: self.endpoints@.map_values(|endpoint: NetworkEndpoint| endpoint@),
            binaries: self.binaries@.map_values(|binary: NetworkBinary| binary.path@),
        }
    }
}

impl View for PolicyChunk {
    type V = ChunkView;

    open spec fn view(&self) -> ChunkView {
        ChunkView {
            id: self.id@,
            status: self.status@,
            rule_name: self.rule_name@,
            proposed_rule: match self.proposed_rule {
                Some(rule) => Some(rule@),
                None => None,
            },
            rationale: self.rationale@,
            security_notes: self.security_notes@,
            confidence_hundredths: self.confidence_hundredths,
            denial_summary_ids: texts(self.denial_summary_ids@),
            created_at_ms: self.created_at_ms,
            decided_at_ms: self.decided_at_ms,
            stage: self.stage@,
            supersedes_chunk_id: self.supersedes_chunk_id@,
            hit_count: self.hit_count,
            first_seen_ms: self.first_seen_ms,
            last_seen_ms: self.last_seen_ms,
            binary: self.binary@,
        }
    }
}

} // verus!

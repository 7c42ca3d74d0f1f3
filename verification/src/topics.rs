//! The typed topic-addressing scheme: the two command topic shapes, their
//! canonical string encodings, the parser that inverts them, and the ACL
//! rule derivation that scopes a device identity's publish/subscribe
//! rights.

use vstd::prelude::*;

use crate::errors::NeoiotError;
use crate::text::dec_str;
use crate::text::lemma_dec_str_digits;
use crate::text::lemma_dec_str_value;
use crate::text::lemma_digits_no_slash;
use crate::text::lemma_split_append;
use crate::text::lemma_split_no_slash;
use crate::text::no_slash;
use crate::text::parse_usize;
use crate::text::parse_usize_spec;
use crate::text::push_dec;
use crate::text::split_slash;
use crate::text::split_slash_spec;
use crate::text::str_eq;

verus! {

/// A character of the base32-hex alphabet that correlation ids are
/// rendered in.
pub open spec fn is_xid_char(c: char) -> bool {
    ('0' as int <= c as int && c as int <= '9' as int) || ('a' as int <= c as int && c as int
        <= 'v' as int)
}

/// The shape of a freshly minted correlation id: twenty base32-hex
/// characters, none of which can collide with the topic separator.
pub open spec fn is_correlation_id(s: Seq<char>) -> bool {
    s.len() == 20 && forall|i: int| 0 <= i < s.len() ==> is_xid_char(#[trigger] s[i])
}

pub proof fn lemma_correlation_id_no_slash(s: Seq<char>)
    requires
        is_correlation_id(s),
    ensures
        no_slash(s),
{
}

/// Mints a globally unique correlation id.
///
/// Relies on `xid::new` and the `Display` impl of `xid::Id`: the rendering
/// is always exactly twenty characters drawn from `0-9a-v`.
#[verifier::external_body]
pub(crate) fn fresh_id() -> (r: String)
    ensures
        is_correlation_id(r@),
{
    xid::new().to_string()
}

/// A command addressed to a single device.
#[derive(Debug, Clone, PartialEq)]
pub struct ServerToDevice {
    pub message_id: String,
    pub account_id: String,
    pub device_id: String,
    pub command: String,
    pub is_sync: bool,
    pub ttl: Option<usize>,
}

/// The mathematical content of a [`ServerToDevice`] command.
pub ghost struct ServerToDeviceView {
    pub message_id: Seq<char>,
    pub account_id: Seq<char>,
    pub device_id: Seq<char>,
    pub command: Seq<char>,
    pub is_sync: bool,
    pub ttl: Option<usize>,
}

impl View for ServerToDevice {
    type V = ServerToDeviceView;

    open spec fn view(&self) -> ServerToDeviceView {
        ServerToDeviceView {
            message_id: self.message_id@,
            account_id: self.account_id@,
            device_id: self.device_id@,
            command: self.command@,
            is_sync: self.is_sync,
            ttl: self.ttl,
        }
    }
}

/// The `sync`/`async` literal segment carrying the synchronous-mode flag.
pub open spec fn mode_seq(is_sync: bool) -> Seq<char> {
    if is_sync {
        "sync"@
    } else {
        "async"@
    }
}

/// The optional trailing time-to-live segment.
pub open spec fn ttl_suffix(ttl: Option<usize>) -> Seq<char> {
    match ttl {
        Some(n) => "/"@ + dec_str(n as nat),
        None => Seq::<char>::empty(),
    }
}

/// The canonical encoding of a single-device command topic.
pub open spec fn s2d_topic(v: ServerToDeviceView) -> Seq<char> {
    "s2d/"@ + v.account_id + "/"@ + v.device_id + "/"@ + v.command + "/"@ + mode_seq(v.is_sync)
        + "/"@ + v.message_id + ttl_suffix(v.ttl)
}

impl ServerToDevice {
    /// A fresh command for one device, with a newly minted correlation id.
    pub fn new(account_id: &str, device_id: &str, command: &str, is_sync: bool, ttl: Option<
        usize,
    >) -> (r: Self)
        ensures
            r.account_id@ == account_id@,
            r.device_id@ == device_id@,
            r.command@ == command@,
            r.is_sync == is_sync,
            r.ttl == ttl,
            is_correlation_id(r.message_id@),
    {
        let message_id = fresh_id();
        Self {
            message_id,
            is_sync,
            account_id: account_id.to_owned(),
            device_id: device_id.to_owned(),
            command: command.to_owned(),
            ttl,
        }
    }

    /// The wire-level topic string for this command.
    pub fn topic(&self) -> (r: String)
        ensures
            r@ == s2d_topic(self@),
    {
        let mut t = String::from_str("s2d/");
        t.append(self.account_id.as_str());
        t.append("/");
        t.append(self.device_id.as_str());
        t.append("/");
        t.append(self.command.as_str());
        t.append("/");
        if self.is_sync {
            t.append("sync");
        } else {
            t.append("async");
        }
        t.append("/");
        t.append(self.message_id.as_str());
        if let Some(ttl) = self.ttl {
            t.append("/");
            push_dec(&mut t, ttl);
        }
        proof {
            assert(t@ =~= s2d_topic(self@));
        }
        t
    }
}

/// A command addressed to every device carrying a label.
#[derive(Debug, Clone, PartialEq)]
pub struct ServerToDeviceBatch {
    pub message_id: String,
    pub account_id: String,
    pub label: String,
    pub command: String,
    pub ttl: Option<usize>,
}

/// The mathematical content of a [`ServerToDeviceBatch`] command.
pub ghost struct ServerToDeviceBatchView {
    pub message_id: Seq<char>,
    pub account_id: Seq<char>,
    pub label: Seq<char>,
    pub command: Seq<char>,
    pub ttl: Option<usize>,
}

impl View for ServerToDeviceBatch {
    type V = ServerToDeviceBatchView;

    open spec fn view(&self) -> ServerToDeviceBatchView {
        ServerToDeviceBatchView {
            message_id: self.message_id@,
            account_id: self.account_id@,
            label: self.label@,
            command: self.command@,
            ttl: self.ttl,
        }
    }
}

/// The trailing time-to-live segment of a group topic, empty when absent.
pub open spec fn ttl_or_empty(ttl: Option<usize>) -> Seq<char> {
    match ttl {
        Some(n) => dec_str(n as nat),
        None => Seq::<char>::empty(),
    }
}

/// The canonical encoding of a device-group command topic. Group commands
/// carry no synchronous-mode flag: they are always fire-and-forget.
pub open spec fn s2l_topic(v: ServerToDeviceBatchView) -> Seq<char> {
    "s2l/"@ + v.account_id + "/"@ + v.label + "/"@ + v.command + "/"@ + v.message_id + "/"@
        + ttl_or_empty(v.ttl)
}

impl ServerToDeviceBatch {
    /// A fresh command for a device group, with a newly minted correlation
    /// id.
    pub fn new(account_id: &str, label: &str, command: &str, ttl: Option<usize>) -> (r: Self)
        ensures
            r.account_id@ == account_id@,
            r.label@ == label@,
            r.command@ == command@,
            r.ttl == ttl,
            is_correlation_id(r.message_id@),
    {
        let message_id = fresh_id();
        Self {
            message_id,
            account_id: account_id.to_owned(),
            label: label.to_owned(),
            command: command.to_owned(),
            ttl,
        }
    }

    /// The wire-level topic string for this command.
    pub fn topic(&self) -> (r: String)
        ensures
            r@ == s2l_topic(self@),
    {
        let mut t = String::from_str("s2l/");
        t.append(self.account_id.as_str());
        t.append("/");
        t.append(self.label.as_str());
        t.append("/");
        t.append(self.command.as_str());
        t.append("/");
        t.append(self.message_id.as_str());
        t.append("/");
        if let Some(ttl) = self.ttl {
            push_dec(&mut t, ttl);
        }
        proof {
            assert(t@ =~= s2l_topic(self@));
        }
        t
    }
}

/// Subscribe pattern: commands addressed to this device.
pub open spec fn sub_s2d_pattern(a: Seq<char>, d: Seq<char>) -> Seq<char> {
    "s2d/"@ + a + "/"@ + d + "/+/+/+/#"@
}

/// Subscribe pattern: group commands for any label the device belongs to.
pub open spec fn sub_s2l_pattern(a: Seq<char>) -> Seq<char> {
    "s2l/"@ + a + "/+/+/+/#"@
}

/// Subscribe pattern: messages from peer devices.
pub open spec fn sub_d2d_pattern(a: Seq<char>, d: Seq<char>) -> Seq<char> {
    "d2d/"@ + a + "/"@ + d + "/+/+"@
}

/// Publish pattern: replies to server commands.
pub open spec fn pub_s2dr_pattern(a: Seq<char>, d: Seq<char>) -> Seq<char> {
    "s2dr/"@ + a + "/"@ + d + "/+/+/+/#"@
}

/// Publish pattern: messages to a peer device.
pub open spec fn pub_d2d_pattern(a: Seq<char>, d: Seq<char>) -> Seq<char> {
    "d2d/"@ + a + "/+/"@ + d + "/+"@
}

/// Publish pattern: telemetry and events to the control plane.
pub open spec fn pub_d2s_pattern(a: Seq<char>, d: Seq<char>) -> Seq<char> {
    "d2s/"@ + a + "/"@ + d + "/+/+"@
}

/// Publish pattern: metrics samples.
pub open spec fn pub_metrics_pattern(a: Seq<char>, d: Seq<char>) -> Seq<char> {
    "metrics/"@ + a + "/"@ + d + "/+"@
}

/// The exact publish rules a device identity is granted, in the order they
/// are persisted.
pub open spec fn publish_patterns(a: Seq<char>, d: Seq<char>) -> Seq<Seq<char>> {
    seq![
        pub_d2d_pattern(a, d),
        pub_d2s_pattern(a, d),
        pub_s2dr_pattern(a, d),
        pub_metrics_pattern(a, d),
    ]
}

/// The exact subscribe rules a device identity is granted, in the order
/// they are persisted.
pub open spec fn subscribe_patterns(a: Seq<char>, d: Seq<char>) -> Seq<Seq<char>> {
    seq![sub_s2d_pattern(a, d), sub_s2l_pattern(a), sub_d2d_pattern(a, d)]
}

/// A tenant-plus-device identity, the sole input of ACL rule derivation.
pub struct ACLRules {
    pub account_id: String,
    pub device_id: String,
}

impl ACLRules {
    pub fn new(account_id: String, device_id: String) -> (r: Self)
        ensures
            r.account_id@ == account_id@,
            r.device_id@ == device_id@,
    {
        Self { account_id, device_id }
    }

    /// Topic filter under which the device receives its own commands.
    pub fn sub_s2d(&self) -> (r: String)
        ensures
            r@ == sub_s2d_pattern(self.account_id@, self.device_id@),
    {
        let mut t = String::from_str("s2d/");
        t.append(self.account_id.as_str());
        t.append("/");
        t.append(self.device_id.as_str());
        t.append("/+/+/+/#");
        proof {
            assert(t@ =~= sub_s2d_pattern(self.account_id@, self.device_id@));
        }
        t
    }

    /// Topic filter under which the device receives group commands.
    pub fn sub_s2l(&self) -> (r: String)
        ensures
            r@ == sub_s2l_pattern(self.account_id@),
    {
        let mut t = String::from_str("s2l/");
        t.append(self.account_id.as_str());
        t.append("/+/+/+/#");
        proof {
            assert(t@ =~= sub_s2l_pattern(self.account_id@));
        }
        t
    }

    /// Topic filter under which the device receives peer messages.
    pub fn sub_d2d(&self) -> (r: String)
        ensures
            r@ == sub_d2d_pattern(self.account_id@, self.device_id@),
    {
        let mut t = String::from_str("d2d/");
        t.append(self.account_id.as_str());
        t.append("/");
        t.append(self.device_id.as_str());
        t.append("/+/+");
        proof {
            assert(t@ =~= sub_d2d_pattern(self.account_id@, self.device_id@));
        }
        t
    }

    /// Topic pattern under which the device publishes command replies.
    pub fn pub_s2dr(&self) -> (r: String)
        ensures
            r@ == pub_s2dr_pattern(self.account_id@, self.device_id@),
    {
        let mut t = String::from_str("s2dr/");
        t.append(self.account_id.as_str());
        t.append("/");
        t.append(self.device_id.as_str());
        t.append("/+/+/+/#");
        proof {
            assert(t@ =~= pub_s2dr_pattern(self.account_id@, self.device_id@));
        }
        t
    }

    /// Topic pattern under which the device messages a peer.
    pub fn pub_d2d(&self) -> (r: String)
        ensures
            r@ == pub_d2d_pattern(self.account_id@, self.device_id@),
    {
        let mut t = String::from_str("d2d/");
        t.append(self.account_id.as_str());
        t.append("/+/");
        t.append(self.device_id.as_str());
        t.append("/+");
        proof {
            assert(t@ =~= pub_d2d_pattern(self.account_id@, self.device_id@));
        }
        t
    }

    /// Topic pattern under which the device sends telemetry upstream.
    pub fn pub_d2s(&self) -> (r: String)
        ensures
            r@ == pub_d2s_pattern(self.account_id@, self.device_id@),
    {
        let mut t = String::from_str("d2s/");
        t.append(self.account_id.as_str());
        t.append("/");
        t.append(self.device_id.as_str());
        t.append("/+/+");
        proof {
            assert(t@ =~= pub_d2s_pattern(self.account_id@, self.device_id@));
        }
        t
    }

    /// Topic pattern under which the device publishes metrics samples.
    pub fn pub_metrics(&self) -> (r: String)
        ensures
            r@ == pub_metrics_pattern(self.account_id@, self.device_id@),
    {
        let mut t = String::from_str("metrics/");
        t.append(self.account_id.as_str());
        t.append("/");
        t.append(self.device_id.as_str());
        t.append("/+");
        proof {
            assert(t@ =~= pub_metrics_pattern(self.account_id@, self.device_id@));
        }
        t
    }
}

/// The ordered publish and subscribe rules derived for one identity,
/// persisted as the device's authorization configuration.
pub struct ACLRuleSet {
    pub publish: Vec<String>,
    pub subscribe: Vec<String>,
}

/// Derives the exact rule set a fully provisioned device identity is
/// granted: four publish and three subscribe patterns, in a fixed order.
/// The result is a pure function of the identity, so any two derivations
/// for the same identity agree — see
/// [`lemma_rules_for_deterministic`].
pub fn rules_for(identity: &ACLRules) -> (r: ACLRuleSet)
    ensures
        r.publish.deep_view() == publish_patterns(identity.account_id@, identity.device_id@),
        r.subscribe.deep_view() == subscribe_patterns(identity.account_id@, identity.device_id@),
{
    let mut publish: Vec<String> = Vec::new();
    publish.push(identity.pub_d2d());
    publish.push(identity.pub_d2s());
    publish.push(identity.pub_s2dr());
    publish.push(identity.pub_metrics());
    let mut subscribe: Vec<String> = Vec::new();
    subscribe.push(identity.sub_s2d());
    subscribe.push(identity.sub_s2l());
    subscribe.push(identity.sub_d2d());
    proof {
        assert(publish.deep_view() =~~= publish_patterns(
            identity.account_id@,
            identity.device_id@,
        ));
        assert(subscribe.deep_view() =~~= subscribe_patterns(
            identity.account_id@,
            identity.device_id@,
        ));
    }
    ACLRuleSet { publish, subscribe }
}

/// ACL derivation is deterministic: any two rule sets derived for the same
/// identity hold the same patterns in the same order. Nondeterminism here
/// would be a security-relevant regression, since the output is persisted
/// as broker authorization configuration.
pub proof fn lemma_rules_for_deterministic(r1: ACLRuleSet, r2: ACLRuleSet, a: Seq<char>, d: Seq<
    char,
>)
    requires
        r1.publish.deep_view() == publish_patterns(a, d),
        r1.subscribe.deep_view() == subscribe_patterns(a, d),
        r2.publish.deep_view() == publish_patterns(a, d),
        r2.subscribe.deep_view() == subscribe_patterns(a, d),
    ensures
        r1.publish.deep_view() == r2.publish.deep_view(),
        r1.subscribe.deep_view() == r2.subscribe.deep_view(),
        r1.publish.deep_view().len() == 4,
        r1.subscribe.deep_view().len() == 3,
{
}

/// The closed set of command topic shapes.
#[derive(Debug, Clone, PartialEq)]
pub enum Topics {
    S2D(ServerToDevice),
    S2L(ServerToDeviceBatch),
}

/// The mathematical content of a [`Topics`] value.
pub ghost enum TopicsView {
    S2D(ServerToDeviceView),
    S2L(ServerToDeviceBatchView),
}

impl View for Topics {
    type V = TopicsView;

    open spec fn view(&self) -> TopicsView {
        match self {
            Topics::S2D(cmd) => TopicsView::S2D(cmd@),
            Topics::S2L(cmd) => TopicsView::S2L(cmd@),
        }
    }
}

/// The encoding of whichever topic shape `v` holds.
pub open spec fn topic_encoding(v: TopicsView) -> Seq<char> {
    match v {
        TopicsView::S2D(cmd) => s2d_topic(cmd),
        TopicsView::S2L(cmd) => s2l_topic(cmd),
    }
}

/// Segment lists that decode as a single-device command: the `s2d` prefix
/// followed by five mandatory segments and an optional trailing ttl.
pub open spec fn is_s2d_shape(p: Seq<Seq<char>>) -> bool {
    (p.len() == 6 || p.len() == 7) && p[0] == "s2d"@
}

/// Segment lists that decode as a device-group command: the `s2l` prefix
/// followed by exactly five segments, the last being the ttl or empty.
pub open spec fn is_s2l_shape(p: Seq<Seq<char>>) -> bool {
    p.len() == 6 && p[0] == "s2l"@
}

/// Whether `s` is a well-formed encoded command topic.
pub open spec fn decodable(s: Seq<char>) -> bool {
    is_s2d_shape(split_slash_spec(s)) || is_s2l_shape(split_slash_spec(s))
}

/// The single-device command carried by a segment list of `s2d` shape.
/// Any mode segment other than the literal `sync` is read as asynchronous,
/// and an unparsable trailing ttl degrades to no ttl rather than failing.
pub open spec fn s2d_of_parts(p: Seq<Seq<char>>) -> ServerToDeviceView {
    ServerToDeviceView {
        message_id: p[5],
        account_id: p[1],
        device_id: p[2],
        command: p[3],
        is_sync: p[4] == "sync"@,
        ttl: if p.len() == 7 {
            parse_usize_spec(p[6])
        } else {
            None
        },
    }
}

/// The device-group command carried by a segment list of `s2l` shape.
pub open spec fn s2l_of_parts(p: Seq<Seq<char>>) -> ServerToDeviceBatchView {
    ServerToDeviceBatchView {
        message_id: p[4],
        account_id: p[1],
        label: p[2],
        command: p[3],
        ttl: parse_usize_spec(p[5]),
    }
}

/// The topic value a well-formed encoded string decodes to.
pub open spec fn decoded_topic(s: Seq<char>) -> TopicsView
    recommends
        decodable(s),
{
    let p = split_slash_spec(s);
    if is_s2d_shape(p) {
        TopicsView::S2D(s2d_of_parts(p))
    } else {
        TopicsView::S2L(s2l_of_parts(p))
    }
}

impl Topics {
    /// The wire-level topic string of this command.
    pub fn topic(&self) -> (r: String)
        ensures
            r@ == topic_encoding(self@),
    {
        match self {
            Topics::S2D(cmd) => cmd.topic(),
            Topics::S2L(cmd) => cmd.topic(),
        }
    }

    /// Parses an encoded topic string. Returns `Ok` exactly on the two
    /// well-formed shapes; any other prefix or segment count yields
    /// `InvalidTopic` carrying the offending string.
    pub fn decode(topic: &str) -> (r: Result<Topics, NeoiotError>)
        ensures
            r is Ok <==> decodable(topic@),
            r matches Ok(t) ==> t@ == decoded_topic(topic@),
            r matches Err(e) ==> e matches NeoiotError::InvalidTopic(orig) && orig@ == topic@,
    {
        let parts = split_slash(topic);
        let n = parts.len();
        proof {
            assert(parts.deep_view().len() == n);
            assert(forall|i: int| 0 <= i < n ==> parts.deep_view()[i] == #[trigger] parts@[i]@);
        }
        if (n == 6 || n == 7) && str_eq(parts[0].as_str(), "s2d") {
            let ttl: Option<usize> = if n == 7 {
                parse_usize(parts[6].as_str())
            } else {
                None
            };
            let cmd = ServerToDevice {
                message_id: parts[5].clone(),
                account_id: parts[1].clone(),
                device_id: parts[2].clone(),
                command: parts[3].clone(),
                is_sync: str_eq(parts[4].as_str(), "sync"),
                ttl,
            };
            Ok(Topics::S2D(cmd))
        } else if n == 6 && str_eq(parts[0].as_str(), "s2l") {
            let cmd = ServerToDeviceBatch {
                message_id: parts[4].clone(),
                account_id: parts[1].clone(),
                label: parts[2].clone(),
                command: parts[3].clone(),
                ttl: parse_usize(parts[5].as_str()),
            };
            Ok(Topics::S2L(cmd))
        } else {
            Err(NeoiotError::InvalidTopic(topic.to_owned()))
        }
    }
}

impl core::str::FromStr for Topics {
    type Err = NeoiotError;

    fn from_str(topic: &str) -> Result<Topics, NeoiotError> {
        Topics::decode(topic)
    }
}

proof fn lemma_mode_seq(b: bool)
    ensures
        no_slash(mode_seq(b)),
        (mode_seq(b) == "sync"@) <==> b,
{
    reveal_strlit("sync");
    reveal_strlit("async");
    assert forall|i: int| 0 <= i < "sync"@.len() implies "sync"@[i] != '/' by {}
    assert forall|i: int| 0 <= i < "async"@.len() implies "async"@[i] != '/' by {}
    if !b {
        assert("async"@.len() != "sync"@.len());
    }
}

/// The segments an encoded single-device topic splits back into.
#[verifier::rlimit(50)]
proof fn lemma_s2d_split(v: ServerToDeviceView)
    requires
        no_slash(v.account_id),
        no_slash(v.device_id),
        no_slash(v.command),
        no_slash(v.message_id),
    ensures
        split_slash_spec(s2d_topic(v)) == match v.ttl {
            None => seq![
                "s2d"@,
                v.account_id,
                v.device_id,
                v.command,
                mode_seq(v.is_sync),
                v.message_id,
            ],
            Some(n) => seq![
                "s2d"@,
                v.account_id,
                v.device_id,
                v.command,
                mode_seq(v.is_sync),
                v.message_id,
                dec_str(n as nat),
            ],
        },
{
    reveal_strlit("s2d/");
    reveal_strlit("s2d");
    reveal_strlit("/");
    lemma_mode_seq(v.is_sync);
    assert forall|i: int| 0 <= i < "s2d"@.len() implies "s2d"@[i] != '/' by {}
    let m = mode_seq(v.is_sync);
    let tail4: Seq<char> = match v.ttl {
        None => v.message_id,
        Some(n) => v.message_id + seq!['/'] + dec_str(n as nat),
    };
    let tail3 = m + seq!['/'] + tail4;
    let tail2 = v.command + seq!['/'] + tail3;
    let tail1 = v.device_id + seq!['/'] + tail2;
    let tail0 = v.account_id + seq!['/'] + tail1;
    assert("/"@ =~= seq!['/']);
    assert(s2d_topic(v) =~= "s2d"@ + seq!['/'] + tail0);
    match v.ttl {
        None => {
            lemma_split_no_slash(tail4);
        },
        Some(n) => {
            lemma_dec_str_digits(n as nat);
            lemma_digits_no_slash(dec_str(n as nat));
            lemma_split_no_slash(dec_str(n as nat));
            lemma_split_append(v.message_id, dec_str(n as nat));
            assert(split_slash_spec(tail4) == seq![v.message_id] + seq![dec_str(n as nat)]);
        },
    }
    lemma_split_append(m, tail4);
    lemma_split_append(v.command, tail3);
    lemma_split_append(v.device_id, tail2);
    lemma_split_append(v.account_id, tail1);
    lemma_split_append("s2d"@, tail0);
    match v.ttl {
        None => {
            assert(split_slash_spec(s2d_topic(v)) =~~= seq![
                "s2d"@,
                v.account_id,
                v.device_id,
                v.command,
                m,
                v.message_id,
            ]);
        },
        Some(n) => {
            assert(split_slash_spec(s2d_topic(v)) =~~= seq![
                "s2d"@,
                v.account_id,
                v.device_id,
                v.command,
                m,
                v.message_id,
                dec_str(n as nat),
            ]);
        },
    }
}

/// Decoding is the exact left inverse of encoding for single-device
/// topics whose fields are free of the separator, with or without a ttl.
pub proof fn lemma_s2d_round_trip(v: ServerToDeviceView)
    requires
        no_slash(v.account_id),
        no_slash(v.device_id),
        no_slash(v.command),
        no_slash(v.message_id),
    ensures
        decodable(s2d_topic(v)),
        decoded_topic(s2d_topic(v)) == TopicsView::S2D(v),
{
    lemma_s2d_split(v);
    lemma_mode_seq(v.is_sync);
    let p = split_slash_spec(s2d_topic(v));
    assert(p[0] == "s2d"@);
    assert(is_s2d_shape(p));
    match v.ttl {
        None => {
            assert(s2d_of_parts(p) == v);
        },
        Some(n) => {
            crate::text::lemma_parse_dec(n);
            assert(p[6] == dec_str(n as nat));
            assert(s2d_of_parts(p) == v);
        },
    }
}

/// The segments an encoded device-group topic splits back into.
proof fn lemma_s2l_split(v: ServerToDeviceBatchView)
    requires
        no_slash(v.account_id),
        no_slash(v.label),
        no_slash(v.command),
        no_slash(v.message_id),
    ensures
        split_slash_spec(s2l_topic(v)) == seq![
            "s2l"@,
            v.account_id,
            v.label,
            v.command,
            v.message_id,
            ttl_or_empty(v.ttl),
        ],
{
    reveal_strlit("s2l/");
    reveal_strlit("s2l");
    reveal_strlit("/");
    assert forall|i: int| 0 <= i < "s2l"@.len() implies "s2l"@[i] != '/' by {}
    let last = ttl_or_empty(v.ttl);
    assert(no_slash(last)) by {
        match v.ttl {
            None => {},
            Some(n) => {
                lemma_dec_str_digits(n as nat);
                lemma_digits_no_slash(dec_str(n as nat));
            },
        }
    }
    let tail4 = v.message_id + seq!['/'] + last;
    let tail3 = v.command + seq!['/'] + tail4;
    let tail2 = v.label + seq!['/'] + tail3;
    let tail1 = v.account_id + seq!['/'] + tail2;
    assert("/"@ =~= seq!['/']);
    assert(s2l_topic(v) =~= "s2l"@ + seq!['/'] + tail1);
    lemma_split_no_slash(last);
    lemma_split_append(v.message_id, last);
    lemma_split_append(v.command, tail4);
    lemma_split_append(v.label, tail3);
    lemma_split_append(v.account_id, tail2);
    lemma_split_append("s2l"@, tail1);
    assert(split_slash_spec(s2l_topic(v)) =~~= seq![
        "s2l"@,
        v.account_id,
        v.label,
        v.command,
        v.message_id,
        last,
    ]);
}

/// Decoding is the exact left inverse of encoding for device-group topics
/// whose fields are free of the separator, with or without a ttl.
pub proof fn lemma_s2l_round_trip(v: ServerToDeviceBatchView)
    requires
        no_slash(v.account_id),
        no_slash(v.label),
        no_slash(v.command),
        no_slash(v.message_id),
    ensures
        decodable(s2l_topic(v)),
        decoded_topic(s2l_topic(v)) == TopicsView::S2L(v),
{
    lemma_s2l_split(v);
    let p = split_slash_spec(s2l_topic(v));
    assert(p[0] == "s2l"@);
    assert(is_s2l_shape(p));
    assert(!is_s2d_shape(p)) by {
        reveal_strlit("s2d");
        reveal_strlit("s2l");
        assert("s2l"@[2] != "s2d"@[2]);
    }
    match v.ttl {
        None => {
            assert(p[5].len() == 0);
            assert(s2l_of_parts(p) == v);
        },
        Some(n) => {
            crate::text::lemma_parse_dec(n);
            assert(p[5] == dec_str(n as nat));
            assert(s2l_of_parts(p) == v);
        },
    }
}

/// A command envelope: an addressed topic and its opaque payload, ready
/// for a single publish attempt.
#[derive(Debug, PartialEq)]
pub struct Message {
    pub topic: Topics,
    pub payload: String,
}

impl Message {
    pub fn new(topic: Topics, payload: String) -> (r: Self)
        ensures
            r.topic == topic,
            r.payload == payload,
    {
        Self { topic, payload }
    }
}

} // verus!

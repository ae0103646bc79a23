//! Codec verbs and what a codec says of itself.
use vstd::prelude::*;

verus! {

/// The last address a codec can have.
pub const MAX_CODEC_ADDRESS: u8 = 0x0e;
/// Addresses a codec can have.
pub const DISCOVERABLE_CODECS: usize = 15;
/// Function groups that are kept of one codec.
pub const MAX_FUNCTION_GROUPS: usize = 32;
pub const PARAM_VENDOR_ID: u8 = 0x00;
pub const PARAM_REVISION_ID: u8 = 0x02;
pub const PARAM_SUBORDINATE_NODE_COUNT: u8 = 0x04;
pub const PARAM_FUNCTION_GROUP_TYPE: u8 = 0x05;
pub const VERB_GET_PARAMETER: u16 = 0x0f00;
/// The type of an audio function group.
pub const GROUP_TYPE_AUDIO: u8 = 0x01;

/// One command to a codec.
#[derive(Clone, Copy, Debug, Eq, PartialEq, Structural)]
pub struct Verb {
    word: u32,
}

/// The word of a command: codec, node, verb and payload.
pub open spec fn verb_word(codec: u8, node: u8, verb: u16, payload: u8) -> u32 {
    ((codec as u32) << 28) | ((node as u32) << 20) | ((verb as u32) << 8) | (payload as u32)
}

impl Verb {
    /// The word that is sent.
    pub closed spec fn sent(self) -> u32 {
        self.word
    }

    /// The codec a word is meant for.
    pub open spec fn target(self) -> u8 {
        (self.sent() >> 28) as u8
    }

    pub fn new(codec: u8, node: u8, verb: u16, payload: u8) -> (result: Option<Self>)
        ensures
            result is Some <==> codec <= MAX_CODEC_ADDRESS && verb <= 0x0fff,
            result is Some ==> result->0.sent() == verb_word(codec, node, verb, payload),
    {
        if codec > MAX_CODEC_ADDRESS || verb > 0x0fff {
            return None;
        }
        Some(
            Verb {
                word: ((codec as u32) << 28) | ((node as u32) << 20) | ((verb as u32) << 8) | (
                payload as u32),
            },
        )
    }

    /// The command that asks for a parameter.
    pub fn get_parameter(codec: u8, node: u8, parameter: u8) -> (result: Option<Self>)
        ensures
            result is Some <==> codec <= MAX_CODEC_ADDRESS,
            result is Some ==> result->0.sent() == verb_word(
                codec,
                node,
                VERB_GET_PARAMETER,
                parameter,
            ),
    {
        Self::new(codec, node, VERB_GET_PARAMETER, parameter)
    }

    pub fn raw(self) -> (word: u32)
        ensures
            word == self.sent(),
    {
        self.word
    }

    pub fn codec(self) -> (codec: u8)
        ensures
            codec == self.target(),
    {
        (self.word >> 28) as u8
    }

    pub fn node(self) -> (node: u8)
        ensures
            node == ((self.sent() >> 20) & 0xff) as u8,
    {
        ((self.word >> 20) & 0xff) as u8
    }
}

proof fn lemma_verb_bits(codec: u8, node: u8, verb: u16, payload: u8)
    by (bit_vector)
    requires
        codec <= 0x0eu8,
        verb <= 0x0fffu16,
    ensures
        ((((codec as u32) << 28) | ((node as u32) << 20) | ((verb as u32) << 8) | (payload as u32))
            >> 28) as u8 == codec,
        (((((codec as u32) << 28) | ((node as u32) << 20) | ((verb as u32) << 8) | (payload as u32))
            >> 20) & 0xff) as u8 == node,
        (((((codec as u32) << 28) | ((node as u32) << 20) | ((verb as u32) << 8) | (payload as u32))
            >> 8) & 0xfff) as u16 == verb,
        (((codec as u32) << 28) | ((node as u32) << 20) | ((verb as u32) << 8) | (payload as u32))
            as u8 == payload,
{
}

/// Every field of a command can be read back from its word.
pub proof fn lemma_verb_round_trip(codec: u8, node: u8, verb: u16, payload: u8)
    requires
        codec <= MAX_CODEC_ADDRESS,
        verb <= 0x0fff,
    ensures
        ({
            let word = verb_word(codec, node, verb, payload);
            &&& (word >> 28) as u8 == codec
            &&& ((word >> 20) & 0xff) as u8 == node
            &&& ((word >> 8) & 0xfff) as u16 == verb
            &&& word as u8 == payload
        }),
{
    lemma_verb_bits(codec, node, verb, payload);
}

/// A command is told by its word.
pub proof fn lemma_verb_is_its_word(a: Verb, b: Verb)
    ensures
        a.sent() == b.sent() <==> a == b,
{
}

/// One function group of a codec.
#[derive(Clone, Copy, Debug, Eq, PartialEq, Structural)]
pub struct FunctionGroupInfo {
    pub node_id: u8,
    pub group_type: u8,
    pub unsolicited_capable: bool,
}

impl Default for FunctionGroupInfo {
    fn default() -> (group: Self)
        ensures
            group == (FunctionGroupInfo {
                node_id: 0,
                group_type: 0,
                unsolicited_capable: false,
            }),
    {
        FunctionGroupInfo { node_id: 0, group_type: 0, unsolicited_capable: false }
    }
}

/// What a codec said of itself.
#[derive(Clone, Debug, Eq, PartialEq)]
pub struct CodecInfo {
    pub address: u8,
    pub vendor_device_id: u32,
    pub revision_id: u32,
    pub groups: Vec<FunctionGroupInfo>,
    pub groups_truncated: bool,
}

/// What a codec said of itself, apart from how it is held.
#[verifier::ext_equal]
pub struct CodecModel {
    pub address: u8,
    pub vendor_device_id: u32,
    pub revision_id: u32,
    pub groups: Seq<FunctionGroupInfo>,
    pub groups_truncated: bool,
}

impl View for CodecInfo {
    type V = CodecModel;

    open spec fn view(&self) -> CodecModel {
        CodecModel {
            address: self.address,
            vendor_device_id: self.vendor_device_id,
            revision_id: self.revision_id,
            groups: self.groups@,
            groups_truncated: self.groups_truncated,
        }
    }
}

impl CodecModel {
    /// With one more group, where there is room for it.
    pub open spec fn with_group(self, group: FunctionGroupInfo) -> CodecModel {
        if self.groups.len() < MAX_FUNCTION_GROUPS {
            CodecModel { groups: self.groups.push(group), ..self }
        } else {
            CodecModel { groups_truncated: true, ..self }
        }
    }
}

/// How many groups are audio groups.
pub open spec fn audio_groups(groups: Seq<FunctionGroupInfo>) -> nat
    decreases groups.len(),
{
    if groups.len() == 0 {
        0
    } else {
        audio_groups(groups.drop_last()) + if groups.last().group_type == GROUP_TYPE_AUDIO {
            1nat
        } else {
            0nat
        }
    }
}

impl CodecInfo {
    pub fn new(address: u8, vendor_device_id: u32, revision_id: u32) -> (info: Self)
        ensures
            info@ == (CodecModel {
                address,
                vendor_device_id,
                revision_id,
                groups: Seq::empty(),
                groups_truncated: false,
            }),
    {
        CodecInfo {
            address,
            vendor_device_id,
            revision_id,
            groups: Vec::new(),
            groups_truncated: false,
        }
    }

    /// Add a group; where there is no room left, remember that some are
    /// missing.
    pub fn push_group(&mut self, group: FunctionGroupInfo)
        ensures
            final(self)@ == old(self)@.with_group(group),
    {
        if self.groups.len() < MAX_FUNCTION_GROUPS {
            self.groups.push(group);
        } else {
            self.groups_truncated = true;
        }
    }

    pub fn function_groups(&self) -> (groups: &[FunctionGroupInfo])
        ensures
            groups@ == self@.groups,
    {
        self.groups.as_slice()
    }

    pub fn audio_function_group_count(&self) -> (count: usize)
        ensures
            count == audio_groups(self@.groups),
    {
        let mut count: usize = 0;
        let mut i: usize = 0;
        while i < self.groups.len()
            invariant
                i <= self.groups@.len(),
                count <= i,
                count == audio_groups(self.groups@.take(i as int)),
            decreases self.groups@.len() - i,
        {
            assert(self.groups@.take(i + 1).drop_last() == self.groups@.take(i as int));
            if self.groups[i].group_type == GROUP_TYPE_AUDIO {
                count = count + 1;
            }
            i = i + 1;
        }
        assert(self.groups@.take(i as int) == self.groups@);
        count
    }
}

/// First node and number of nodes below a node.
pub fn subordinate_nodes(response: u32) -> (nodes: (u8, u8))
    ensures
        nodes == (((response >> 16) & 0xff) as u8, (response & 0xff) as u8),
{
    (((response >> 16) & 0xff) as u8, (response & 0xff) as u8)
}

/// The group a node describes with its answer.
pub open spec fn group_of(node_id: u8, response: u32) -> FunctionGroupInfo {
    FunctionGroupInfo {
        node_id,
        group_type: (response & 0xff) as u8,
        unsolicited_capable: response & 0x100 != 0,
    }
}

/// The group a node describes with its answer.
pub fn function_group(node_id: u8, response: u32) -> (group: FunctionGroupInfo)
    ensures
        group == group_of(node_id, response),
{
    FunctionGroupInfo {
        node_id,
        group_type: (response & 0xff) as u8,
        unsolicited_capable: response & 0x100 != 0,
    }
}

/// Every word is that of some command.
pub(crate) proof fn lemma_word_has_verb(word: u32)
    ensures
        exists|verb: Verb| #[trigger] verb.sent() == word,
{
    let verb = Verb { word };
    assert(verb.sent() == word);
}

} // verus!

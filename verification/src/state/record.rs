//! The records that the device reads, and their bytes.
//!
//! A record is a run of 32 bit words. Each word lies in memory with its
//! lowest byte first, as the host writes it and the device reads it.

use vstd::prelude::*;

use crate::mesh::Id;
use crate::mesh::Metadata;
use crate::render::command::DrawArraysIndirectCommand;

verus! {

/// The four bytes of `word`, lowest first.
pub open spec fn word_bytes(word: u32) -> Seq<u8> {
    seq![
        (word & 0xff) as u8,
        ((word >> 8) & 0xff) as u8,
        ((word >> 16) & 0xff) as u8,
        ((word >> 24) & 0xff) as u8,
    ]
}

/// The bytes of `words`, one word after the other.
pub open spec fn words_bytes(words: Seq<u32>) -> Seq<u8>
    decreases words.len(),
{
    if words.len() == 0 {
        Seq::empty()
    } else {
        words_bytes(words.drop_last()) + word_bytes(words.last())
    }
}

/// Append the four bytes of `word` to `out`.
pub fn push_word(out: &mut Vec<u8>, word: u32)
    ensures
        final(out)@ == old(out)@ + word_bytes(word),
{
    proof {
        assert(word & 0xff < 256 && (word >> 8) & 0xff < 256 && (word >> 16) & 0xff < 256 && (word
            >> 24) & 0xff < 256) by (bit_vector);
    }
    out.push((word & 0xff) as u8);
    out.push(((word >> 8) & 0xff) as u8);
    out.push(((word >> 16) & 0xff) as u8);
    out.push(((word >> 24) & 0xff) as u8);
    proof {
        assert(out@ =~= old(out)@ + word_bytes(word));
    }
}

/// The bytes of `words`, one word after the other.
pub fn encode_words(words: &[u32]) -> (bytes: Vec<u8>)
    ensures
        bytes@ == words_bytes(words@),
{
    let mut bytes: Vec<u8> = Vec::new();
    let mut i: usize = 0;
    while i < words.len()
        invariant
            0 <= i <= words@.len(),
            bytes@ == words_bytes(words@.subrange(0, i as int)),
        decreases words@.len() - i,
    {
        proof {
            assert(words@.subrange(0, i + 1).drop_last() =~= words@.subrange(0, i as int));
        }
        push_word(&mut bytes, words[i]);
        i += 1;
    }
    proof {
        assert(words@.subrange(0, words@.len() as int) =~= words@);
    }
    bytes
}

/// A value of four 32 bit words that the logic only stores and hands on:
/// a position or a rotation, as the bit patterns of its four components.
#[derive(Clone, Copy, Debug, PartialEq, Eq, Structural)]
pub struct Pod4 {
    pub x: u32,
    pub y: u32,
    pub z: u32,
    pub w: u32,
}

impl Default for Pod4 {
    fn default() -> (value: Self)
        ensures
            value == (Pod4 { x: 0, y: 0, z: 0, w: 0 }),
    {
        Pod4 { x: 0, y: 0, z: 0, w: 0 }
    }
}

/// The sixteen bytes of `value`: its four words in the order of the fields.
pub open spec fn pod_bytes(value: Pod4) -> Seq<u8> {
    word_bytes(value.x) + word_bytes(value.y) + word_bytes(value.z) + word_bytes(value.w)
}

/// The bytes of `value` as the device reads them.
pub fn encode_pod(value: Pod4) -> (bytes: Vec<u8>)
    ensures
        bytes@ == pod_bytes(value),
        bytes@.len() == 16,
{
    let mut bytes: Vec<u8> = Vec::new();
    push_word(&mut bytes, value.x);
    push_word(&mut bytes, value.y);
    push_word(&mut bytes, value.z);
    push_word(&mut bytes, value.w);
    proof {
        assert(bytes@ =~= pod_bytes(value));
    }
    bytes
}

/// An entity: a few handles into the columns and tables that hold what it
/// is made of. On the device it takes 16 bytes: the four fields in this
/// order.
#[derive(Clone, Copy, Debug, PartialEq, Eq, Structural)]
pub struct Entity {
    /// The position of the entity's mesh among the mesh IDs.
    pub mesh: u32,
    /// The handle of the entity's position.
    pub position: u32,
    /// The handle of the entity's rotation.
    pub rotation: u32,
    /// Padding: always zero.
    pub pad: u32,
}

impl Default for Entity {
    fn default() -> (entity: Self)
        ensures
            entity == (Entity { mesh: 0, position: 0, rotation: 0, pad: 0 }),
    {
        Entity { mesh: 0, position: 0, rotation: 0, pad: 0 }
    }
}

/// The words of a run of entities: four for each.
pub open spec fn entity_words(entities: Seq<Entity>) -> Seq<u32>
    decreases entities.len(),
{
    if entities.len() == 0 {
        Seq::empty()
    } else {
        entity_words(entities.drop_last()) + seq![
            entities.last().mesh,
            entities.last().position,
            entities.last().rotation,
            entities.last().pad,
        ]
    }
}

/// The words of a run of four word values: four for each.
pub open spec fn pod_words(values: Seq<Pod4>) -> Seq<u32>
    decreases values.len(),
{
    if values.len() == 0 {
        Seq::empty()
    } else {
        pod_words(values.drop_last()) + seq![
            values.last().x,
            values.last().y,
            values.last().z,
            values.last().w,
        ]
    }
}

/// The words of a run of mesh IDs: one for each.
pub open spec fn id_words(ids: Seq<Id>) -> Seq<u32> {
    Seq::new(ids.len(), |i: int| ids[i].0)
}

/// The words of a run of mesh metadata: offset and length of each.
pub open spec fn metadata_words(metadata: Seq<Metadata>) -> Seq<u32>
    decreases metadata.len(),
{
    if metadata.len() == 0 {
        Seq::empty()
    } else {
        metadata_words(metadata.drop_last()) + seq![
            metadata.last().offset,
            metadata.last().length,
        ]
    }
}

/// The words of a run of draw commands: the four fields of each.
pub open spec fn command_words(commands: Seq<DrawArraysIndirectCommand>) -> Seq<u32>
    decreases commands.len(),
{
    if commands.len() == 0 {
        Seq::empty()
    } else {
        command_words(commands.drop_last()) + seq![
            commands.last().count,
            commands.last().instance_count,
            commands.last().first_vertex,
            commands.last().base_instance,
        ]
    }
}

/// Appending the bytes of one more word to the bytes of words gives the
/// bytes of the longer run.
proof fn lemma_words_bytes_push(words: Seq<u32>, word: u32)
    ensures
        words_bytes(words.push(word)) == words_bytes(words) + word_bytes(word),
{
    assert(words.push(word).drop_last() =~= words);
}

/// The bytes of one value are the bytes of a run that holds this value and
/// no other.
pub proof fn lemma_pod_bytes(value: Pod4)
    ensures
        pod_bytes(value) == words_bytes(pod_words(seq![value])),
        pod_bytes(value).len() == 16,
{
    let none = Seq::<u32>::empty();
    assert(seq![value].drop_last() =~= Seq::<Pod4>::empty());
    assert(pod_words(Seq::<Pod4>::empty()) =~= none);
    assert(words_bytes(none) =~= Seq::<u8>::empty());
    assert(pod_words(seq![value]) =~= none.push(value.x).push(value.y).push(value.z).push(value.w));
    lemma_words_bytes_push(none, value.x);
    lemma_words_bytes_push(none.push(value.x), value.y);
    lemma_words_bytes_push(none.push(value.x).push(value.y), value.z);
    lemma_words_bytes_push(none.push(value.x).push(value.y).push(value.z), value.w);
    assert(words_bytes(pod_words(seq![value])) =~= pod_bytes(value));
}

/// The bytes of `entities` as the device reads them.
pub fn encode_entities(entities: &[Entity]) -> (bytes: Vec<u8>)
    ensures
        bytes@ == words_bytes(entity_words(entities@)),
{
    let mut bytes: Vec<u8> = Vec::new();
    let mut i: usize = 0;
    while i < entities.len()
        invariant
            0 <= i <= entities@.len(),
            bytes@ == words_bytes(entity_words(entities@.subrange(0, i as int))),
        decreases entities@.len() - i,
    {
        let entity = entities[i];
        proof {
            let before = entity_words(entities@.subrange(0, i as int));
            assert(entities@.subrange(0, i + 1).drop_last() =~= entities@.subrange(0, i as int));
            lemma_words_bytes_push(before, entity.mesh);
            lemma_words_bytes_push(before.push(entity.mesh), entity.position);
            lemma_words_bytes_push(
                before.push(entity.mesh).push(entity.position),
                entity.rotation,
            );
            lemma_words_bytes_push(
                before.push(entity.mesh).push(entity.position).push(entity.rotation),
                entity.pad,
            );
            assert(before.push(entity.mesh).push(entity.position).push(entity.rotation).push(
                entity.pad,
            ) =~= before + seq![entity.mesh, entity.position, entity.rotation, entity.pad]);
        }
        push_word(&mut bytes, entity.mesh);
        push_word(&mut bytes, entity.position);
        push_word(&mut bytes, entity.rotation);
        push_word(&mut bytes, entity.pad);
        i += 1;
    }
    proof {
        assert(entities@.subrange(0, entities@.len() as int) =~= entities@);
    }
    bytes
}

/// The bytes of `values` as the device reads them.
pub fn encode_pods(values: &[Pod4]) -> (bytes: Vec<u8>)
    ensures
        bytes@ == words_bytes(pod_words(values@)),
{
    let mut bytes: Vec<u8> = Vec::new();
    let mut i: usize = 0;
    while i < values.len()
        invariant
            0 <= i <= values@.len(),
            bytes@ == words_bytes(pod_words(values@.subrange(0, i as int))),
        decreases values@.len() - i,
    {
        let value = values[i];
        proof {
            let before = pod_words(values@.subrange(0, i as int));
            assert(values@.subrange(0, i + 1).drop_last() =~= values@.subrange(0, i as int));
            lemma_words_bytes_push(before, value.x);
            lemma_words_bytes_push(before.push(value.x), value.y);
            lemma_words_bytes_push(before.push(value.x).push(value.y), value.z);
            lemma_words_bytes_push(before.push(value.x).push(value.y).push(value.z), value.w);
            assert(before.push(value.x).push(value.y).push(value.z).push(value.w) =~= before
                + seq![value.x, value.y, value.z, value.w]);
        }
        push_word(&mut bytes, value.x);
        push_word(&mut bytes, value.y);
        push_word(&mut bytes, value.z);
        push_word(&mut bytes, value.w);
        i += 1;
    }
    proof {
        assert(values@.subrange(0, values@.len() as int) =~= values@);
    }
    bytes
}

/// The bytes of `ids` as the device reads them.
pub fn encode_ids(ids: &[Id]) -> (bytes: Vec<u8>)
    ensures
        bytes@ == words_bytes(id_words(ids@)),
{
    let mut bytes: Vec<u8> = Vec::new();
    let mut i: usize = 0;
    while i < ids.len()
        invariant
            0 <= i <= ids@.len(),
            bytes@ == words_bytes(id_words(ids@.subrange(0, i as int))),
        decreases ids@.len() - i,
    {
        proof {
            let before = id_words(ids@.subrange(0, i as int));
            lemma_words_bytes_push(before, ids@[i as int].0);
            assert(before.push(ids@[i as int].0) =~= id_words(ids@.subrange(0, i + 1)));
        }
        push_word(&mut bytes, ids[i].0);
        i += 1;
    }
    proof {
        assert(ids@.subrange(0, ids@.len() as int) =~= ids@);
    }
    bytes
}

/// The bytes of `metadata` as the device reads them.
pub fn encode_metadata(metadata: &[Metadata]) -> (bytes: Vec<u8>)
    ensures
        bytes@ == words_bytes(metadata_words(metadata@)),
{
    let mut bytes: Vec<u8> = Vec::new();
    let mut i: usize = 0;
    while i < metadata.len()
        invariant
            0 <= i <= metadata@.len(),
            bytes@ == words_bytes(metadata_words(metadata@.subrange(0, i as int))),
        decreases metadata@.len() - i,
    {
        let entry = metadata[i];
        proof {
            let before = metadata_words(metadata@.subrange(0, i as int));
            assert(metadata@.subrange(0, i + 1).drop_last() =~= metadata@.subrange(0, i as int));
            lemma_words_bytes_push(before, entry.offset);
            lemma_words_bytes_push(before.push(entry.offset), entry.length);
            assert(before.push(entry.offset).push(entry.length) =~= before + seq![
                entry.offset,
                entry.length,
            ]);
        }
        push_word(&mut bytes, entry.offset);
        push_word(&mut bytes, entry.length);
        i += 1;
    }
    proof {
        assert(metadata@.subrange(0, metadata@.len() as int) =~= metadata@);
    }
    bytes
}

/// The bytes of `commands` as the device reads them.
pub fn encode_commands(commands: &[DrawArraysIndirectCommand]) -> (bytes: Vec<u8>)
    ensures
        bytes@ == words_bytes(command_words(commands@)),
{
    let mut bytes: Vec<u8> = Vec::new();
    let mut i: usize = 0;
    while i < commands.len()
        invariant
            0 <= i <= commands@.len(),
            bytes@ == words_bytes(command_words(commands@.subrange(0, i as int))),
        decreases commands@.len() - i,
    {
        let command = commands[i];
        proof {
            let before = command_words(commands@.subrange(0, i as int));
            assert(commands@.subrange(0, i + 1).drop_last() =~= commands@.subrange(0, i as int));
            lemma_words_bytes_push(before, command.count);
            lemma_words_bytes_push(before.push(command.count), command.instance_count);
            lemma_words_bytes_push(
                before.push(command.count).push(command.instance_count),
                command.first_vertex,
            );
            lemma_words_bytes_push(
                before.push(command.count).push(command.instance_count).push(
                    command.first_vertex,
                ),
                command.base_instance,
            );
            assert(before.push(command.count).push(command.instance_count).push(
                command.first_vertex,
            ).push(command.base_instance) =~= before + seq![
                command.count,
                command.instance_count,
                command.first_vertex,
                command.base_instance,
            ]);
        }
        push_word(&mut bytes, command.count);
        push_word(&mut bytes, command.instance_count);
        push_word(&mut bytes, command.first_vertex);
        push_word(&mut bytes, command.base_instance);
        i += 1;
    }
    proof {
        assert(commands@.subrange(0, commands@.len() as int) =~= commands@);
    }
    bytes
}

} // verus!

use vstd::prelude::*;
use vstd::utf8::{valid_utf8, decode_utf8, encode_utf8};
use crate::ids::{format_user_id, user_id_text};

verus! {

broadcast use vstd::string::to_string_from_display_ensures_for_str;

/// The Redis stream that holds every stroke ever drawn.
pub const STREAM_NAME: &'static str = "paint-game";

/// The entry id handed to `XADD`: the server picks the next id.
pub const NEW_ENTRY_ID: &'static str = "*";

/// The entry id handed to `XREAD`: read from the very start of the stream.
pub const READ_FROM_START: &'static str = "0";

#[verifier::external_type_specification]
#[verifier::external_body]
pub struct ExRedisValue(redis::Value);

#[verifier::external_type_specification]
#[verifier::external_body]
pub struct ExRedisError(redis::RedisError);

/// A value as Redis replies it, variant for variant.
pub enum RedisValue {
    Nil,
    Int(i64),
    Data(Vec<u8>),
    Bulk(Vec<RedisValue>),
    Status(String),
    Okay,
}

/// The text that reading `v` as a string gives, if it can be read as one:
/// binary data that is valid UTF-8 decodes to its characters, a status reply
/// is its own text, and `OK` reads as "OK".
pub open spec fn value_text(v: RedisValue) -> Option<Seq<char>> {
    match v {
        RedisValue::Data(bytes) => if valid_utf8(bytes@) {
            Some(decode_utf8(bytes@))
        } else {
            None
        },
        RedisValue::Status(s) => Some(s@),
        RedisValue::Okay => Some(seq!['O', 'K']),
        _ => None,
    }
}

/// Copies the library's value into a `redis::Value`, variant for variant, so
/// that `read_text` can hand it to the redis crate; nested `Bulk` items are
/// copied the same way. It has no contract: nothing is claimed of the copy
/// beyond what `read_text` states.
#[verifier::external_body]
fn outside_value(v: &RedisValue) -> redis::Value {
    match v {
        RedisValue::Nil => redis::Value::Nil,
        RedisValue::Int(i) => redis::Value::Int(*i),
        RedisValue::Data(bytes) => redis::Value::Data(bytes.clone()),
        RedisValue::Bulk(items) => redis::Value::Bulk(items.iter().map(outside_value).collect()),
        RedisValue::Status(s) => redis::Value::Status(s.clone()),
        RedisValue::Okay => redis::Value::Okay,
    }
}

/// Reads `v` as a string with `redis::from_redis_value::<String>`. In the redis
/// crate that impl reads `Data` with `std::str::from_utf8`, answers "OK" for
/// `Okay`, the text itself for `Status`, and an error for every other variant;
/// the contract states exactly this, through `value_text`.
#[verifier::external_body]
fn read_text(v: &RedisValue) -> (res: Result<String, redis::RedisError>)
    ensures
        match res {
            Ok(s) => value_text(*v) == Some(s@),
            Err(_) => value_text(*v) is None,
        },
{
    redis::from_redis_value(&outside_value(v))
}

/// One entry of the stream: its id and its field/value pairs.
pub struct StreamEntry {
    pub id: String,
    pub fields: Vec<(String, RedisValue)>,
}

/// The entries read from one stream key.
pub struct StreamKey {
    pub key: String,
    pub ids: Vec<StreamEntry>,
}

/// What an `XREAD` replies: the entries of each stream key that was read.
pub struct StreamReply {
    pub keys: Vec<StreamKey>,
}

/// Why a stored entry could not be replayed.
#[derive(Debug, Clone, Copy, PartialEq, Eq, Structural)]
pub enum DumpError {
    /// The entry has no `data` field.
    MissingData,
    /// The `data` field cannot be read as a string.
    NotText,
}

/// The name of the field that holds a stroke.
pub open spec fn data_name() -> Seq<char> {
    seq!['d', 'a', 't', 'a']
}

/// The name of the field that holds the painter's id.
pub open spec fn user_id_name() -> Seq<char> {
    seq!['u', 's', 'e', 'r', '_', 'i', 'd']
}

/// The value of the first field named `name`, if there is one.
pub open spec fn field_value(fields: Seq<(String, RedisValue)>, name: Seq<char>) -> Option<RedisValue>
    decreases fields.len(),
{
    if fields.len() == 0 {
        None
    } else if fields[0].0@ == name {
        Some(fields[0].1)
    } else {
        field_value(fields.drop_first(), name)
    }
}

/// The stroke that an entry holds, or why it holds none.
pub open spec fn entry_text(e: StreamEntry) -> Result<Seq<char>, DumpError> {
    match field_value(e.fields@, data_name()) {
        None => Err(DumpError::MissingData),
        Some(v) => match value_text(v) {
            Some(t) => Ok(t),
            None => Err(DumpError::NotText),
        },
    }
}

/// Every entry of a reply, key after key, each key's entries in the order read.
pub open spec fn all_entries(keys: Seq<StreamKey>) -> Seq<StreamEntry>
    decreases keys.len(),
{
    if keys.len() == 0 {
        Seq::empty()
    } else {
        all_entries(keys.drop_last()) + keys.last().ids@
    }
}

/// Replaying `entries` in order: the strokes of the entries before the first
/// one that holds no stroke, and why that one holds none (`None` when every
/// entry holds one).
pub open spec fn replay(entries: Seq<StreamEntry>) -> (Seq<Seq<char>>, Option<DumpError>)
    decreases entries.len(),
{
    if entries.len() == 0 {
        (Seq::empty(), None)
    } else {
        let (texts, failure) = replay(entries.drop_last());
        if failure is Some {
            (texts, failure)
        } else {
            match entry_text(entries.last()) {
                Ok(t) => (texts.push(t), None),
                Err(e) => (texts, Some(e)),
            }
        }
    }
}

/// The characters of each string, in order.
pub open spec fn texts_view(texts: Seq<String>) -> Seq<Seq<char>> {
    texts.map_values(|s: String| s@)
}

/// Once a replay has stopped at an entry, later entries change nothing.
pub proof fn lemma_replay_stops(s: Seq<StreamEntry>, t: Seq<StreamEntry>)
    requires
        replay(s).1 is Some,
    ensures
        replay(s + t) == replay(s),
    decreases t.len(),
{
    if t.len() == 0 {
        assert(s + t =~= s);
    } else {
        lemma_replay_stops(s, t.drop_last());
        assert((s + t).drop_last() =~= s + t.drop_last());
    }
}

/// The entries of the first `i + 1` keys are those of the first `i` keys
/// followed by those of key `i`.
pub proof fn lemma_all_entries_step(keys: Seq<StreamKey>, i: int)
    requires
        0 <= i < keys.len(),
    ensures
        all_entries(keys.take(i + 1)) == all_entries(keys.take(i)) + keys[i].ids@,
{
    assert(keys.take(i + 1).drop_last() =~= keys.take(i));
}

/// The value of the `data` field of `fields`, if any.
fn data_field(fields: &Vec<(String, RedisValue)>) -> (res: Option<&RedisValue>)
    ensures
        match res {
            Some(v) => field_value(fields@, data_name()) == Some(*v),
            None => field_value(fields@, data_name()) is None,
        },
{
    let name = "data".to_string();
    proof {
        reveal_strlit("data");
    }
    assert(name@ == data_name());
    let mut i: usize = 0;
    assert(fields@.skip(0) =~= fields@);
    while i < fields.len()
        invariant
            i <= fields@.len(),
            name@ == data_name(),
            field_value(fields@, data_name()) == field_value(fields@.skip(i as int), data_name()),
        decreases fields@.len() - i,
    {
        assert(fields@.skip(i as int).drop_first() =~= fields@.skip(i + 1));
        if fields[i].0 == name {
            return Some(&fields[i].1);
        }
        i = i + 1;
    }
    None
}

/// The stroke held by `e`, read with the redis crate, or why it holds none.
fn stored_text(e: &StreamEntry) -> (res: Result<String, DumpError>)
    ensures
        match res {
            Ok(s) => entry_text(*e) == Ok::<Seq<char>, DumpError>(s@),
            Err(err) => entry_text(*e) == Err::<Seq<char>, DumpError>(err),
        },
{
    match data_field(&e.fields) {
        None => Err(DumpError::MissingData),
        Some(v) => match read_text(v) {
            Ok(s) => Ok(s),
            Err(_) => Err(DumpError::NotText),
        },
    }
}

/// Reads the strokes of every entry of `reply`, key after key, and stops at
/// the first entry that holds none.
pub fn replay_stream(reply: &StreamReply) -> (res: (Vec<String>, Option<DumpError>))
    ensures
        texts_view(res.0@) == replay(all_entries(reply.keys@)).0,
        res.1 == replay(all_entries(reply.keys@)).1,
{
    let mut texts: Vec<String> = Vec::new();
    let mut i: usize = 0;
    assert(reply.keys@.take(0) =~= Seq::<StreamKey>::empty());
    while i < reply.keys.len()
        invariant
            i <= reply.keys@.len(),
            texts_view(texts@) == replay(all_entries(reply.keys@.take(i as int))).0,
            replay(all_entries(reply.keys@.take(i as int))).1 is None,
        decreases reply.keys@.len() - i,
    {
        let ids = &reply.keys[i].ids;
        let ghost done = all_entries(reply.keys@.take(i as int));
        let mut j: usize = 0;
        assert(done + ids@.take(0) =~= done);
        while j < ids.len()
            invariant
                i < reply.keys@.len(),
                ids == reply.keys@[i as int].ids,
                done == all_entries(reply.keys@.take(i as int)),
                j <= ids@.len(),
                texts_view(texts@) == replay(done + ids@.take(j as int)).0,
                replay(done + ids@.take(j as int)).1 is None,
            decreases ids@.len() - j,
        {
            let ghost prefix = done + ids@.take(j as int);
            let ghost next = done + ids@.take(j + 1);
            assert(next.drop_last() =~= prefix);
            assert(next.last() == ids@[j as int]);
            match stored_text(&ids[j]) {
                Ok(t) => {
                    let ghost old_texts = texts@;
                    texts.push(t);
                    assert(texts_view(texts@) =~= texts_view(old_texts).push(t@));
                },
                Err(e) => {
                    proof {
                        let keys = reply.keys@;
                        let after = all_entries(keys.skip(i + 1));
                        lemma_all_entries_concat(keys.take(i + 1), keys.skip(i + 1));
                        assert(keys.take(i + 1) + keys.skip(i + 1) =~= keys);
                        lemma_all_entries_step(keys, i as int);
                        assert(ids@ =~= ids@.take(j + 1) + ids@.skip(j + 1));
                        assert(all_entries(keys) =~= next + (ids@.skip(j + 1) + after));
                        lemma_replay_stops(next, ids@.skip(j + 1) + after);
                    }
                    return (texts, Some(e));
                },
            }
            j = j + 1;
        }
        proof {
            lemma_all_entries_step(reply.keys@, i as int);
            assert(ids@.take(ids@.len() as int) =~= ids@);
        }
        i = i + 1;
    }
    assert(reply.keys@.take(reply.keys@.len() as int) =~= reply.keys@);
    (texts, None)
}

/// The entries of two runs of keys, one after the other, are the entries of
/// the first run followed by those of the second.
pub proof fn lemma_all_entries_concat(a: Seq<StreamKey>, b: Seq<StreamKey>)
    ensures
        all_entries(a + b) == all_entries(a) + all_entries(b),
    decreases b.len(),
{
    if b.len() == 0 {
        assert(a + b =~= a);
        assert(all_entries(a) + all_entries(b) =~= all_entries(a));
    } else {
        lemma_all_entries_concat(a, b.drop_last());
        assert((a + b).drop_last() =~= a + b.drop_last());
        assert(all_entries(a) + all_entries(b) =~= all_entries(a) + all_entries(b.drop_last())
            + b.last().ids@);
    }
}

/// The field/value pairs of the stream entry that records the stroke `data`
/// drawn by the painter `user_id`: first `user_id` with the painter's id text,
/// then `data` with the stroke itself.
pub fn entry_fields(user_id: u128, data: String) -> (fields: Vec<(String, String)>)
    ensures
        fields@.len() == 2,
        fields@[0].0@ == user_id_name(),
        fields@[0].1@ == user_id_text(user_id),
        fields@[1].0@ == data_name(),
        fields@[1].1 == data,
{
    let user_key = "user_id".to_string();
    let data_key = "data".to_string();
    proof {
        reveal_strlit("user_id");
        reveal_strlit("data");
    }
    let mut fields: Vec<(String, String)> = Vec::new();
    fields.push((user_key, format_user_id(user_id)));
    fields.push((data_key, data));
    fields
}

/// Strokes stored as the UTF-8 bytes of their text, as `entry_fields` hands
/// them to the stream, come back from a replay as that very text: all of them,
/// in stream order, and the replay does not stop early.
pub proof fn lemma_replay_returns_stored_texts(entries: Seq<StreamEntry>, texts: Seq<Seq<char>>)
    requires
        entries.len() == texts.len(),
        forall|i: int|
            #![trigger entries[i]]
            0 <= i < entries.len() ==> (field_value(entries[i].fields@, data_name()) matches Some(
                RedisValue::Data(b),
            ) && b@ == encode_utf8(texts[i])),
    ensures
        replay(entries) == (texts, None::<DumpError>),
    decreases entries.len(),
{
    broadcast use vstd::utf8::encode_utf8_valid_utf8, vstd::utf8::encode_utf8_decode_utf8;

    if entries.len() > 0 {
        let n = entries.len() - 1;
        assert forall|i: int| #![trigger entries.drop_last()[i]]
            0 <= i < entries.drop_last().len() implies (field_value(
            entries.drop_last()[i].fields@,
            data_name(),
        ) matches Some(RedisValue::Data(b)) && b@ == encode_utf8(texts.drop_last()[i])) by {
            assert(entries.drop_last()[i] == entries[i]);
        }
        lemma_replay_returns_stored_texts(entries.drop_last(), texts.drop_last());
        assert(entries[n] == entries.last());
        assert(texts.drop_last().push(texts.last()) =~= texts);
    } else {
        assert(texts =~= Seq::<Seq<char>>::empty());
    }
}

/// The `data` and `user_id` field names are exactly those words.
pub proof fn lemma_field_names()
    ensures
        data_name() == "data"@,
        user_id_name() == "user_id"@,
{
    reveal_strlit("data");
    reveal_strlit("user_id");
    assert(data_name() =~= "data"@);
    assert(user_id_name() =~= "user_id"@);
}

/// A lookup finds the value of the first field with the name asked for,
/// whatever that value is.
pub proof fn lemma_field_value_first_match(fields: Seq<(String, RedisValue)>, name: Seq<char>, i: int)
    requires
        0 <= i < fields.len(),
        fields[i].0@ == name,
        forall|j: int| 0 <= j < i ==> fields[j].0@ != name,
    ensures
        field_value(fields, name) == Some(fields[i].1),
    decreases i,
{
    if i > 0 {
        assert(fields[0].0@ != name);
        let rest = fields.drop_first();
        assert forall|j: int| 0 <= j < i - 1 implies rest[j].0@ != name by {
            assert(rest[j] == fields[j + 1]);
        }
        lemma_field_value_first_match(rest, name, i - 1);
    }
}

/// A lookup of a name that no field has finds nothing.
pub proof fn lemma_field_value_absent(fields: Seq<(String, RedisValue)>, name: Seq<char>)
    requires
        forall|j: int| 0 <= j < fields.len() ==> fields[j].0@ != name,
    ensures
        field_value(fields, name) is None,
    decreases fields.len(),
{
    if fields.len() > 0 {
        assert(fields[0].0@ != name);
        let rest = fields.drop_first();
        assert forall|j: int| 0 <= j < rest.len() implies rest[j].0@ != name by {
            assert(rest[j] == fields[j + 1]);
        }
        lemma_field_value_absent(rest, name);
    }
}

/// Reading a value as text: the UTF-8 bytes of any text read back as that
/// text, whatever its length; bytes that are not UTF-8 do not read; a status
/// reads as itself and `OK` as "OK"; nil, numbers and nested replies never read.
pub proof fn lemma_value_text_reads(v: RedisValue, t: Seq<char>)
    ensures
        v matches RedisValue::Data(b) ==> (b@ == encode_utf8(t) ==> value_text(v) == Some(t)),
        v matches RedisValue::Data(b) ==> (!valid_utf8(b@) ==> value_text(v) is None),
        v matches RedisValue::Status(s) ==> value_text(v) == Some(s@),
        v is Okay ==> value_text(v) == Some("OK"@),
        (v is Nil || v is Int || v is Bulk) ==> value_text(v) is None,
{
    broadcast use vstd::utf8::encode_utf8_valid_utf8, vstd::utf8::encode_utf8_decode_utf8;

    reveal_strlit("OK");
    assert(seq!['O', 'K'] =~= "OK"@);
}

/// An entry holds the text `t` as a stroke when its first field named
/// `data` holds the UTF-8 bytes of `t`.
pub open spec fn holds_stroke(e: StreamEntry, t: Seq<char>) -> bool {
    exists|k: int|
        #![trigger e.fields@[k]]
        0 <= k < e.fields@.len() && e.fields@[k].0@ == seq!['d', 'a', 't', 'a'] && (forall|j: int|
            0 <= j < k ==> e.fields@[j].0@ != seq!['d', 'a', 't', 'a']) && (e.fields@[k].1 matches RedisValue::Data(
            b,
        ) && b@ == encode_utf8(t))
}

/// An entry that holds the stroke `t` is read as `t`, however long `t` is.
pub proof fn lemma_entry_text_of_stroke(e: StreamEntry, t: Seq<char>)
    requires
        holds_stroke(e, t),
    ensures
        entry_text(e) == Ok::<Seq<char>, DumpError>(t),
{
    let k = choose|k: int|
        #![trigger e.fields@[k]]
        0 <= k < e.fields@.len() && e.fields@[k].0@ == seq!['d', 'a', 't', 'a'] && (forall|j: int|
            0 <= j < k ==> e.fields@[j].0@ != seq!['d', 'a', 't', 'a']) && (e.fields@[k].1 matches RedisValue::Data(
            b,
        ) && b@ == encode_utf8(t));
    assert(data_name() =~= seq!['d', 'a', 't', 'a']);
    lemma_field_value_first_match(e.fields@, data_name(), k);
    lemma_value_text_reads(e.fields@[k].1, t);
}

/// Replaying entries that each hold a stroke gives those strokes, all of them
/// and in stream order, with no failure.
pub proof fn lemma_replay_of_strokes(entries: Seq<StreamEntry>, texts: Seq<Seq<char>>)
    requires
        entries.len() == texts.len(),
        forall|i: int| 0 <= i < entries.len() ==> holds_stroke(#[trigger] entries[i], texts[i]),
    ensures
        replay(entries) == (texts, None::<DumpError>),
    decreases entries.len(),
{
    if entries.len() == 0 {
        assert(texts =~= Seq::<Seq<char>>::empty());
    } else {
        let n = entries.len() - 1;
        assert forall|i: int| 0 <= i < entries.drop_last().len() implies holds_stroke(
            #[trigger] entries.drop_last()[i],
            texts.drop_last()[i],
        ) by {
            assert(entries.drop_last()[i] == entries[i]);
        }
        lemma_replay_of_strokes(entries.drop_last(), texts.drop_last());
        assert(holds_stroke(entries[n], texts[n]));
        lemma_entry_text_of_stroke(entries[n], texts[n]);
        assert(texts.drop_last().push(texts[n]) =~= texts);
    }
}

/// A replay sends the strokes of the entries before the first entry that has
/// no `data` field, reports that entry as missing its data, and reads no further.
pub proof fn lemma_replay_stops_at_missing_data(
    entries: Seq<StreamEntry>,
    texts: Seq<Seq<char>>,
    n: int,
)
    requires
        0 <= n < entries.len(),
        texts.len() == n,
        forall|i: int| 0 <= i < n ==> holds_stroke(#[trigger] entries[i], texts[i]),
        forall|j: int| 0 <= j < entries[n].fields@.len() ==> entries[n].fields@[j].0@ != seq!['d', 'a', 't', 'a'],
    ensures
        replay(entries) == (texts, Some(DumpError::MissingData)),
{
    let prefix = entries.take(n);
    assert forall|i: int| 0 <= i < prefix.len() implies holds_stroke(#[trigger] prefix[i], texts[i]) by {
        assert(prefix[i] == entries[i]);
    }
    lemma_replay_of_strokes(prefix, texts);
    assert(data_name() =~= seq!['d', 'a', 't', 'a']);
    lemma_field_value_absent(entries[n].fields@, data_name());
    let upto = entries.take(n + 1);
    assert(upto.drop_last() =~= prefix);
    assert(upto.last() == entries[n]);
    lemma_replay_stops(upto, entries.skip(n + 1));
    assert(upto + entries.skip(n + 1) =~= entries);
}

/// The entries of a reply with one key are that key's entries, in order.
pub proof fn lemma_all_entries_one_key(k: StreamKey)
    ensures
        all_entries(seq![k]) == k.ids@,
{
    let one = seq![k];
    assert(one.drop_last() =~= Seq::<StreamKey>::empty());
    assert(one.last() == k);
    assert(all_entries(one.drop_last()) == Seq::<StreamEntry>::empty());
    assert(all_entries(one) == all_entries(one.drop_last()) + one.last().ids@);
    assert(Seq::<StreamEntry>::empty() + k.ids@ =~= k.ids@);
}

/// A replay sends the strokes of the entries before the first entry whose
/// first `data` field cannot be read as text (bytes that are not UTF-8, a
/// number, nil or a nested reply), reports that entry as not text, and reads
/// no further.
pub proof fn lemma_replay_stops_at_unreadable_data(
    entries: Seq<StreamEntry>,
    texts: Seq<Seq<char>>,
    n: int,
    k: int,
)
    requires
        0 <= n < entries.len(),
        texts.len() == n,
        forall|i: int| 0 <= i < n ==> holds_stroke(#[trigger] entries[i], texts[i]),
        0 <= k < entries[n].fields@.len(),
        entries[n].fields@[k].0@ == seq!['d', 'a', 't', 'a'],
        forall|j: int| 0 <= j < k ==> entries[n].fields@[j].0@ != seq!['d', 'a', 't', 'a'],
        match entries[n].fields@[k].1 {
            RedisValue::Data(b) => !valid_utf8(b@),
            RedisValue::Nil | RedisValue::Int(_) | RedisValue::Bulk(_) => true,
            _ => false,
        },
    ensures
        replay(entries) == (texts, Some(DumpError::NotText)),
{
    let prefix = entries.take(n);
    assert forall|i: int| 0 <= i < prefix.len() implies holds_stroke(#[trigger] prefix[i], texts[i]) by {
        assert(prefix[i] == entries[i]);
    }
    lemma_replay_of_strokes(prefix, texts);
    assert(data_name() =~= seq!['d', 'a', 't', 'a']);
    lemma_field_value_first_match(entries[n].fields@, data_name(), k);
    lemma_value_text_reads(entries[n].fields@[k].1, Seq::empty());
    let upto = entries.take(n + 1);
    assert(upto.drop_last() =~= prefix);
    assert(upto.last() == entries[n]);
    lemma_replay_stops(upto, entries.skip(n + 1));
    assert(upto + entries.skip(n + 1) =~= entries);
}

/// The characters of a list of strings are those strings' characters, one
/// for one and in order.
pub proof fn lemma_texts_view(texts: Seq<String>)
    ensures
        texts_view(texts).len() == texts.len(),
        forall|i: int| 0 <= i < texts.len() ==> #[trigger] texts_view(texts)[i] == texts[i]@,
{
}

} // verus!

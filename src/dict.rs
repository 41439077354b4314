use std::collections::HashMap;
use vstd::prelude::*;
use vstd::std_specs::hash::obeys_key_model;
use vstd::std_specs::iter::IteratorSpec;

use crate::error::DbusError;
use crate::type_system::BasicType;
use crate::writer::{
    enc_uint, pad_len, padding, DbusWrite, DbusWriter, EndianessFlag, MAX_ARRAY_LEN, MAX_ARRAY_OFFSET,
};

verus! {

broadcast use vstd::std_specs::hash::group_hash_axioms;

/// One dict entry at offset `offset`: padding to 8, the key, then the value.
pub open spec fn enc_dict_entry<K: DbusWrite, V: DbusWrite>(e: (K, V), order: EndianessFlag, offset: int) -> Seq<u8> {
    let p = padding(offset, 8);
    let k = e.0.encoding(order, offset + p.len());
    p + k + e.1.encoding(order, offset + p.len() + k.len())
}

/// The entries of a dict, each at the offset where the previous one ended.
pub open spec fn enc_dict_entries<K: DbusWrite, V: DbusWrite>(a: Seq<(K, V)>, order: EndianessFlag, offset: int) -> Seq<u8>
    decreases a.len(),
{
    if a.len() == 0 {
        Seq::empty()
    } else {
        let pre = enc_dict_entries(a.drop_last(), order, offset);
        pre + enc_dict_entry(a.last(), order, offset + pre.len())
    }
}

/// Offset of the first entry of a dict whose length prefix would go at `written`.
pub open spec fn dict_data_start(written: int) -> int {
    let after_len = written + pad_len(written, 4) + 4;
    after_len + pad_len(after_len, 8)
}

/// A dict at offset `written`: an array of dict entries.
pub open spec fn enc_dict<K: DbusWrite, V: DbusWrite>(a: Seq<(K, V)>, order: EndianessFlag, written: int) -> Seq<u8> {
    let after_len = written + pad_len(written, 4) + 4;
    let data = enc_dict_entries(a, order, dict_data_start(written));
    enc_uint(order, data.len(), 4, written) + padding(after_len, 8) + data
}

/// `entries` lists every key of `m` exactly once, each with its value.
pub open spec fn entries_of<K, V>(m: Map<K, V>, entries: Seq<(K, V)>) -> bool {
    &&& entries.len() == m.dom().len()
    &&& forall|i: int| 0 <= i < entries.len() ==> #[trigger] m.contains_key(entries[i].0) && m[entries[i].0] == entries[i].1
    &&& forall|i: int, j: int| 0 <= i < j < entries.len() ==> entries[i].0 != entries[j].0
}

/// The entry data of a prefix of a dict is no longer than that of the whole dict.
proof fn lemma_dict_prefix_len<K: DbusWrite, V: DbusWrite>(a: Seq<(K, V)>, i: int, order: EndianessFlag, offset: int)
    requires
        0 <= i <= a.len(),
    ensures
        enc_dict_entries(a.take(i), order, offset).len() <= enc_dict_entries(a, order, offset).len(),
    decreases a.len(),
{
    if i < a.len() {
        assert(a.drop_last().take(i) =~= a.take(i));
        lemma_dict_prefix_len(a.drop_last(), i, order, offset);
    } else {
        assert(a.take(i) =~= a);
    }
}

/// The pairs a map iterator hands out, by value.
pub open spec fn unref_pairs<'a, K, V>(s: Seq<(&'a K, &'a V)>) -> Seq<(K, V)> {
    s.map_values(|p: (&'a K, &'a V)| (*p.0, *p.1))
}

impl DbusWriter {
    /// A dict: the key-value pairs of `map` as an array of dict entries, each key exactly once,
    /// in the order the map hands them out. Fails, writing nothing, where the entry data would
    /// exceed `MAX_ARRAY_LEN` bytes.
    pub fn write_dict<K: BasicType + DbusWrite, V: DbusWrite>(
        &mut self,
        order: EndianessFlag,
        map: &HashMap<K, V>,
        bytes_written: u64,
    ) -> (r: Result<u64, DbusError>)
        requires
            obeys_key_model::<K>(),
            bytes_written <= MAX_ARRAY_OFFSET,
            forall|k: K| #[trigger] map@.contains_key(k) ==> k.wire_ok() && map@[k].wire_ok(),
        ensures
            exists|entries: Seq<(K, V)>|
                {
                    &&& entries_of(map@, entries)
                    &&& match r {
                        Ok(n) => {
                            &&& enc_dict_entries(entries, order, dict_data_start(bytes_written as int)).len() <= MAX_ARRAY_LEN
                            &&& n == enc_dict(entries, order, bytes_written as int).len()
                            &&& final(self)@ == old(self)@ + enc_dict(entries, order, bytes_written as int)
                        },
                        Err(e) => {
                            &&& e == DbusError::ArrayTooLong
                            &&& enc_dict_entries(entries, order, dict_data_start(bytes_written as int)).len() > MAX_ARRAY_LEN
                            &&& final(self)@ == old(self)@
                        },
                    }
                },
    {
        let after_len: u64 = bytes_written + (4 - bytes_written % 4) % 4 + 4;
        let start: u64 = after_len + (8 - after_len % 8) % 8;
        let mut scratch = DbusWriter::new(Vec::new());
        let mut data_len: u64 = 0;
        let first = map.iter();
        let ghost all = first.remaining();
        let ghost entries = unref_pairs(all);
        proof {
            lemma_entries_of(map, all);
        }
        for pair in it: map.iter()
            invariant
                it.seq() == all,
                entries == unref_pairs(all),
                entries_of(map@, entries),
                forall|k: K| #[trigger] map@.contains_key(k) ==> k.wire_ok() && map@[k].wire_ok(),
                start == dict_data_start(bytes_written as int),
                start <= MAX_ARRAY_OFFSET + 16,
                scratch@ == enc_dict_entries(entries.take(it.index() as int), order, start as int),
                data_len == scratch@.len(),
                data_len <= MAX_ARRAY_LEN,
        {
            let (k, v) = pair;
            let ghost i = it.index() as int;
            assert(entries[i] == (*k, *v));
            assert(map@.contains_key(entries[i].0));
            let at = start + data_len;
            let p = scratch.write_padding(at, 8);
            let kn = k.write(&mut scratch, order, at + p as u64);
            let vn = v.write(&mut scratch, order, at + p as u64 + kn);
            proof {
                assert(entries.take(i + 1).drop_last() =~= entries.take(i));
                assert(scratch@ =~= enc_dict_entries(entries.take(i + 1), order, start as int));
            }
            data_len = data_len + p as u64 + kn + vn;
            if data_len > MAX_ARRAY_LEN {
                proof {
                    lemma_dict_prefix_len(entries, i + 1, order, start as int);
                }
                return Err(DbusError::ArrayTooLong);
            }
        }
        proof {
            assert(entries.take(entries.len() as int) =~= entries);
        }
        let n1 = self.write_u32(order, data_len as u32, bytes_written);
        let n2 = self.write_padding(after_len, 8);
        let data = scratch.into_bytes();
        self.write_bytes(data.as_slice());
        Ok(n1 + n2 as u64 + data_len)
    }
}

/// The pairs a map iterator hands out list every key of the map exactly once.
proof fn lemma_entries_of<K, V>(map: &HashMap<K, V>, all: Seq<(&K, &V)>)
    requires
        obeys_key_model::<K>(),
        all == map.iter().remaining(),
        all.no_duplicates(),
    ensures
        entries_of(map@, unref_pairs(all)),
{
    let entries = unref_pairs(all);
    assert forall|i: int, j: int| 0 <= i < j < entries.len() implies entries[i].0 != entries[j].0 by {
        if entries[i].0 == entries[j].0 {
            assert(map@.contains_key(*all[i].0));
            assert(map@[*all[j].0] == *all[j].1);
            assert(all[i] == all[j]);
        }
    }
    assert forall|i: int| 0 <= i < entries.len() implies #[trigger] map@.contains_key(entries[i].0) && map@[entries[i].0] == entries[i].1 by {
        assert(map@.contains_key(*all[i].0));
    }
}

} // verus!

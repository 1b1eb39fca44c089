//! The virtual file layer over easy-fs: operations on an inode handle.
use vstd::prelude::*;
use crate::config::MAX_FILE_SIZE;
use crate::efs::{
    blocks_needed, total_blocks, count_at_pos, count_links, first_index, first_index_from, inode_pos, lemma_first_index,
    lemma_inode_pos_injective, lookup, read_len, valid_name, write_bytes, DirEntry,
    EasyFileSystem, FsView, Inode,
};

verus! {

/// The file system is unchanged but for its file contents.
pub open spec fn same_layout(a: FsView, b: FsView) -> bool {
    &&& a.inode_area_start_block == b.inode_area_start_block
    &&& a.inode_capacity == b.inode_capacity
    &&& a.data_capacity == b.data_capacity
}

impl Inode {
    /// The inode that the first entry called `name` names.
    fn find_inode_id(&self, fs: &EasyFileSystem, name: &str) -> (r: Option<u32>)
        requires
            fs@.wf(),
            fs@.is_root(*self),
        ensures
            r == lookup(fs@.entries, name@),
    {
        let q = name.to_owned();
        let n = fs.entry_count();
        let mut i: usize = 0;
        while i < n
            invariant
                n == fs@.entries.len(),
                i <= n,
                q@ == name@,
                first_index(fs@.entries, name@) == first_index_from(fs@.entries, name@, i as int),
            decreases n - i,
        {
            let e = fs.entry(i);
            if e.has_name(&q) {
                return Some(e.inode_id());
            }
            i = i + 1;
        }
        None
    }

    /// Finds the file called `name` in this directory.
    pub fn find(&self, fs: &EasyFileSystem, name: &str) -> (r: Option<Inode>)
        requires
            fs@.wf(),
            fs@.is_root(*self),
        ensures
            match lookup(fs@.entries, name@) {
                Some(id) => r == Some(fs@.handle_of(id as int)) && fs@.names_inode(r.unwrap(), id as int),
                None => r is None,
            },
    {
        match self.find_inode_id(fs, name) {
            Some(inode_id) => {
                proof {
                    lemma_first_index(fs@.entries, name@);
                }
                Some(fs.inode_handle(inode_id))
            },
            None => None,
        }
    }

    /// Creates an empty file called `name` in this directory, unless one exists already.
    pub fn create(&self, fs: &mut EasyFileSystem, name: &str) -> (r: Option<Inode>)
        requires
            old(fs)@.wf(),
            old(fs)@.is_root(*self),
            lookup(old(fs)@.entries, name@) is None ==> {
                &&& valid_name(name@)
                &&& old(fs)@.dir_has_room()
                &&& old(fs)@.dir_blocks_available()
                &&& old(fs)@.inode_available()
            },
        ensures
            final(fs)@.wf(),
            same_layout(old(fs)@, final(fs)@),
            match lookup(old(fs)@.entries, name@) {
                Some(_) => r is None && final(fs)@ == old(fs)@,
                None => {
                    let id = old(fs)@.files.len() as int;
                    &&& r == Some(final(fs)@.handle_of(id))
                    &&& final(fs)@.names_inode(r.unwrap(), id)
                    &&& final(fs)@.files == old(fs)@.files.push(Seq::<u8>::empty())
                    &&& final(fs)@.entries == old(fs)@.entries.push((name@, id as u32))
                    &&& final(fs)@.free_data_blocks == old(fs)@.free_data_blocks - old(fs)@.dir_grow_blocks()
                },
            },
    {
        if self.find_inode_id(fs, name).is_some() {
            return None;
        }
        let new_inode_id = fs.alloc_inode();
        let dirent = DirEntry::new(name, new_inode_id);
        fs.push_entry(dirent);
        Some(fs.inode_handle(new_inode_id))
    }

    /// Adds the name `new_name` for the file called `old_name` (a hard link).
    pub fn link(&self, fs: &mut EasyFileSystem, old_name: &str, new_name: &str) -> (r: Option<Inode>)
        requires
            old(fs)@.wf(),
            old(fs)@.is_root(*self),
            lookup(old(fs)@.entries, old_name@) is Some ==> {
                &&& valid_name(new_name@)
                &&& old(fs)@.dir_has_room()
                &&& old(fs)@.dir_blocks_available()
            },
        ensures
            final(fs)@.wf(),
            same_layout(old(fs)@, final(fs)@),
            final(fs)@.files == old(fs)@.files,
            match lookup(old(fs)@.entries, old_name@) {
                Some(id) => {
                    &&& r == Some(final(fs)@.handle_of(id as int))
                    &&& final(fs)@.names_inode(r.unwrap(), id as int)
                    &&& final(fs)@.entries == old(fs)@.entries.push((new_name@, id))
                    &&& final(fs)@.free_data_blocks == old(fs)@.free_data_blocks - old(fs)@.dir_grow_blocks()
                },
                None => r is None && final(fs)@ == old(fs)@,
            },
    {
        match self.find_inode_id(fs, old_name) {
            Some(old_inode_id) => {
                proof {
                    lemma_first_index(old(fs)@.entries, old_name@);
                }
                let new_inode_id = old_inode_id;
                let dirent = DirEntry::new(new_name, new_inode_id);
                fs.push_entry(dirent);
                Some(fs.inode_handle(new_inode_id))
            },
            None => None,
        }
    }

    /// Removes the first entry called `name`: the last entry takes its place.
    /// Returns 0, or -1 when no entry is called `name`. The file's data stays.
    pub fn unlink(&self, fs: &mut EasyFileSystem, name: &str) -> (r: isize)
        requires
            old(fs)@.wf(),
            old(fs)@.is_root(*self),
        ensures
            final(fs)@.wf(),
            same_layout(old(fs)@, final(fs)@),
            final(fs)@.files == old(fs)@.files,
            final(fs)@.free_data_blocks == old(fs)@.free_data_blocks,
            ({
                let i = first_index(old(fs)@.entries, name@);
                if i < 0 {
                    r == -1 && final(fs)@ == old(fs)@
                } else {
                    &&& r == 0
                    &&& final(fs)@.entries == old(fs)@.entries.update(
                        i,
                        old(fs)@.entries.last(),
                    ).drop_last()
                }
            }),
    {
        let q = name.to_owned();
        let n = fs.entry_count();
        let mut i: usize = 0;
        while i < n
            invariant
                n == fs@.entries.len(),
                fs@ == old(fs)@,
                fs@.wf(),
                i <= n,
                q@ == name@,
                first_index(fs@.entries, name@) == first_index_from(fs@.entries, name@, i as int),
            decreases n - i,
        {
            if fs.entry(i).has_name(&q) {
                fs.swap_remove_entry(i);
                return 0;
            }
            i = i + 1;
        }
        -1
    }

    /// Number of entries in this directory that name the inode at
    /// `(block_id, block_offset)`.
    pub fn get_link_num(&self, fs: &EasyFileSystem, block_id: usize, block_offset: usize) -> (n: u32)
        requires
            fs@.wf(),
            fs@.is_root(*self),
        ensures
            n == count_at_pos(fs@.entries, fs@.inode_area_start_block, block_id as int, block_offset as int),
    {
        let ghost entries = fs@.entries;
        let ghost start = fs@.inode_area_start_block;
        let total = fs.entry_count();
        let mut count: u32 = 0;
        let mut i: usize = 0;
        while i < total
            invariant
                total == entries.len(),
                entries == fs@.entries,
                start == fs@.inode_area_start_block,
                fs@.wf(),
                i <= total,
                count <= i,
                count == count_at_pos(entries.subrange(0, i as int), start, block_id as int, block_offset as int),
            decreases total - i,
        {
            let e = fs.entry(i);
            let (this_block_id, this_block_offset) = fs.get_disk_inode_pos(e.inode_id());
            proof {
                assert(entries.subrange(0, i as int + 1).drop_last() =~= entries.subrange(0, i as int));
            }
            if this_block_id as usize == block_id && this_block_offset == block_offset {
                count = count + 1;
            }
            i = i + 1;
        }
        proof {
            assert(entries.subrange(0, total as int) =~= entries);
        }
        count
    }

    /// The names in this directory, in order.
    pub fn ls(&self, fs: &EasyFileSystem) -> (v: Vec<String>)
        requires
            fs@.wf(),
            fs@.is_root(*self),
        ensures
            v@.len() == fs@.entries.len(),
            forall|i: int| 0 <= i < v@.len() ==> #[trigger] v@[i]@ == fs@.entries[i].0,
    {
        let n = fs.entry_count();
        let mut v: Vec<String> = Vec::new();
        let mut i: usize = 0;
        while i < n
            invariant
                n == fs@.entries.len(),
                i <= n,
                v@.len() == i,
                forall|j: int| 0 <= j < i ==> #[trigger] v@[j]@ == fs@.entries[j].0,
            decreases n - i,
        {
            let name = fs.entry(i).name().to_owned();
            v.push(name);
            i = i + 1;
        }
        v
    }

    /// Reads the file at `offset` into `buf`; returns how many bytes were read.
    pub fn read_at(&self, fs: &EasyFileSystem, offset: usize, buf: &mut [u8]) -> (n: usize)
        requires
            fs@.wf(),
            fs@.is_file(*self),
        ensures
            ({
                let data = fs@.files[fs@.file_id(*self)];
                &&& n == read_len(data.len() as int, offset as int, old(buf)@.len() as int)
                &&& final(buf)@.len() == old(buf)@.len()
                &&& forall|k: int| 0 <= k < n ==> #[trigger] final(buf)@[k] == data[offset + k]
                &&& forall|k: int| n <= k < old(buf)@.len() ==> #[trigger] final(buf)@[k] == old(buf)@[k]
            }),
    {
        let inode_id = self.resolve_file(fs);
        fs.disk_read_at(inode_id, offset, buf)
    }

    /// Writes `buf` into the file at `offset`, growing the file as needed;
    /// returns how many bytes were written.
    pub fn write_at(&self, fs: &mut EasyFileSystem, offset: usize, buf: &[u8]) -> (n: usize)
        requires
            old(fs)@.wf(),
            old(fs)@.is_file(*self),
            offset + buf@.len() <= MAX_FILE_SIZE,
            old(fs)@.grow_blocks_available(old(fs)@.file_id(*self), offset + buf@.len()),
        ensures
            final(fs)@.wf(),
            same_layout(old(fs)@, final(fs)@),
            final(fs)@.entries == old(fs)@.entries,
            n == buf@.len(),
            ({
                let id = old(fs)@.file_id(*self);
                &&& final(fs)@.files == old(fs)@.files.update(id, write_bytes(old(fs)@.files[id], offset as int, buf@))
                &&& final(fs)@.free_data_blocks == old(fs)@.free_data_blocks - blocks_needed(
                    old(fs)@.files[id].len() as int,
                    offset + buf@.len(),
                )
            }),
    {
        let inode_id = self.resolve_file(fs);
        fs.disk_increase_size(inode_id, offset + buf.len());
        let ghost mid = fs@.files[inode_id as int];
        let n = fs.disk_write_at(inode_id, offset, buf);
        proof {
            let od = old(fs)@.files[inode_id as int];
            assert(write_bytes(mid, offset as int, buf@) =~= write_bytes(od, offset as int, buf@));
        }
        n
    }

    /// Empties the file.
    pub fn clear(&self, fs: &mut EasyFileSystem)
        requires
            old(fs)@.wf(),
            old(fs)@.is_file(*self),
        ensures
            final(fs)@.wf(),
            same_layout(old(fs)@, final(fs)@),
            final(fs)@.entries == old(fs)@.entries,
            final(fs)@.files == old(fs)@.files.update(old(fs)@.file_id(*self), Seq::<u8>::empty()),
            final(fs)@.free_data_blocks == old(fs)@.free_data_blocks + total_blocks(
                old(fs)@.files[old(fs)@.file_id(*self)].len() as int,
            ),
    {
        let inode_id = self.resolve_file(fs);
        fs.disk_clear_size(inode_id);
    }

    /// The id of the file this handle designates.
    fn resolve_file(&self, fs: &EasyFileSystem) -> (id: u32)
        requires
            fs@.wf(),
            fs@.is_file(*self),
        ensures
            id as int == fs@.file_id(*self),
            1 <= id < fs@.files.len(),
    {
        let r = fs.inode_id_of(self);
        proof {
            let w = fs@.file_id(*self);
            assert(fs@.names_inode(*self, w));
            match r {
                Some(id) => lemma_inode_pos_injective(fs@.inode_area_start_block, id as int, w),
                None => {},
            }
        }
        r.unwrap()
    }
}

/// Adding an entry adds one name to the inode it names, and none to any other inode.
pub proof fn lemma_count_links_push(entries: Seq<(Seq<char>, u32)>, e: (Seq<char>, u32), x: int)
    ensures
        count_links(entries.push(e), x) == count_links(entries, x) + if e.1 == x { 1nat } else { 0nat },
{
    assert(entries.push(e).drop_last() =~= entries);
}

/// Replacing entry `i` by `v` takes away its name from the inode it named and gives one to `v`'s inode.
pub proof fn lemma_count_links_update(entries: Seq<(Seq<char>, u32)>, i: int, v: (Seq<char>, u32), x: int)
    requires
        0 <= i < entries.len(),
    ensures
        count_links(entries.update(i, v), x) + (if entries[i].1 == x { 1nat } else { 0nat })
            == count_links(entries, x) + (if v.1 == x { 1nat } else { 0nat }),
    decreases entries.len(),
{
    let u = entries.update(i, v);
    if i == entries.len() - 1 {
        assert(u.drop_last() =~= entries.drop_last());
    } else {
        assert(u.drop_last() =~= entries.drop_last().update(i, v));
        lemma_count_links_update(entries.drop_last(), i, v, x);
    }
}

/// Link counts are never larger than the number of entries.
pub proof fn lemma_count_links_le_len(entries: Seq<(Seq<char>, u32)>, x: int)
    ensures
        count_links(entries, x) <= entries.len(),
    decreases entries.len(),
{
    if entries.len() > 0 {
        lemma_count_links_le_len(entries.drop_last(), x);
    }
}

/// No entry names an inode that no entry's id reaches.
pub proof fn lemma_count_links_absent(entries: Seq<(Seq<char>, u32)>, x: int)
    requires
        forall|i: int| 0 <= i < entries.len() ==> #[trigger] entries[i].1 != x,
    ensures
        count_links(entries, x) == 0,
    decreases entries.len(),
{
    if entries.len() > 0 {
        let p = entries.drop_last();
        assert forall|i: int| 0 <= i < p.len() implies #[trigger] p[i].1 != x by {
            assert(p[i] == entries[i]);
        }
        lemma_count_links_absent(p, x);
    }
}

/// Counting entries by the position of their inode counts the names of the
/// inode at that position: `get_link_num` at a file's handle is the number of
/// directory entries that name the file.
pub proof fn law_link_num_counts_names(fs: FsView, inode_id: int)
    requires
        fs.wf(),
        0 <= inode_id < fs.files.len(),
    ensures
        ({
            let h = fs.handle_of(inode_id);
            count_at_pos(fs.entries, fs.inode_area_start_block, h.block_id as int, h.block_offset as int)
                == count_links(fs.entries, inode_id)
        }),
{
    let h = fs.handle_of(inode_id);
    assert(h.block_id as int == fs.inode_area_start_block + inode_id / 4);
    assert(h.block_offset as int == (inode_id % 4) * 128);
    lemma_count_at_pos_by_id(fs.entries, fs.inode_area_start_block, inode_id);
}

/// Counting by position equals counting by inode id, positions being distinct.
proof fn lemma_count_at_pos_by_id(entries: Seq<(Seq<char>, u32)>, start: u32, inode_id: int)
    requires
        0 <= inode_id,
    ensures
        count_at_pos(entries, start, inode_pos(start, inode_id).0, inode_pos(start, inode_id).1)
            == count_links(entries, inode_id),
    decreases entries.len(),
{
    if entries.len() > 0 {
        lemma_count_at_pos_by_id(entries.drop_last(), start, inode_id);
        let last = entries.last().1 as int;
        if inode_pos(start, last) == inode_pos(start, inode_id) {
            lemma_inode_pos_injective(start, last, inode_id);
        }
    }
}

/// A hard link gives the linked inode one more name and every other inode as
/// many names as before; the new name then finds the linked inode when no
/// entry had that name before, and the old name still finds it.
pub proof fn law_link_adds_one_name(fs: FsView, old_name: Seq<char>, new_name: Seq<char>, x: int)
    requires
        fs.wf(),
        lookup(fs.entries, old_name) is Some,
    ensures
        ({
            let id = lookup(fs.entries, old_name).unwrap();
            let entries = fs.entries.push((new_name, id));
            &&& count_links(entries, x) == count_links(fs.entries, x) + if x == id { 1nat } else { 0nat }
            &&& lookup(entries, old_name) == Some(id)
            &&& lookup(fs.entries, new_name) is None ==> lookup(entries, new_name) == Some(id)
        }),
{
    let id = lookup(fs.entries, old_name).unwrap();
    let entries = fs.entries.push((new_name, id));
    lemma_count_links_push(fs.entries, (new_name, id), x);
    lemma_lookup_push(fs.entries, (new_name, id), old_name);
    lemma_lookup_push(fs.entries, (new_name, id), new_name);
}

/// Appending an entry leaves every earlier lookup alone, and makes a missing name find the new entry.
pub proof fn lemma_lookup_push(entries: Seq<(Seq<char>, u32)>, e: (Seq<char>, u32), name: Seq<char>)
    ensures
        lookup(entries, name) is Some ==> lookup(entries.push(e), name) == lookup(entries, name),
        lookup(entries, name) is None && e.0 == name ==> lookup(entries.push(e), name) == Some(e.1),
        lookup(entries, name) is None && e.0 != name ==> lookup(entries.push(e), name) is None,
{
    let p = entries.push(e);
    lemma_first_index(entries, name);
    lemma_first_index(p, name);
    let a = first_index(entries, name);
    let b = first_index(p, name);
    assert forall|j: int| 0 <= j < entries.len() implies #[trigger] p[j] == entries[j] by {}
    if a >= 0 {
        assert(p[a] == entries[a]);
        if b >= 0 && b < a {
            assert(p[b] == entries[b]);
        }
    } else {
        if b >= 0 && b < entries.len() {
            assert(p[b] == entries[b]);
        }
        assert(p[entries.len() as int] == e);
    }
}

/// Removing the first entry called `name` (the last entry taking its place)
/// takes one name away from the inode that entry named, and none from any other.
pub proof fn law_unlink_removes_one_name(fs: FsView, name: Seq<char>, x: int)
    requires
        fs.wf(),
        lookup(fs.entries, name) is Some,
    ensures
        ({
            let i = first_index(fs.entries, name);
            let entries = fs.entries.update(i, fs.entries.last()).drop_last();
            count_links(entries, x) + (if fs.entries[i].1 == x { 1nat } else { 0nat }) == count_links(fs.entries, x)
        }),
{
    lemma_first_index(fs.entries, name);
    let i = first_index(fs.entries, name);
    let e = fs.entries;
    let u = e.update(i, e.last());
    lemma_count_links_update(e, i, e.last(), x);
    assert(u.last() == e.last());
}

/// A created file has exactly one name, the one it was created with, and that name finds it.
pub proof fn law_create_gives_one_name(fs: FsView, name: Seq<char>)
    requires
        fs.wf(),
        lookup(fs.entries, name) is None,
    ensures
        ({
            let id = fs.files.len() as int;
            let entries = fs.entries.push((name, id as u32));
            &&& count_links(entries, id) == 1
            &&& lookup(entries, name) == Some(id as u32)
        }),
{
    let id = fs.files.len() as int;
    lemma_count_links_absent(fs.entries, id);
    lemma_count_links_push(fs.entries, (name, id as u32), id);
    lemma_lookup_push(fs.entries, (name, id as u32), name);
}

/// Reading back the bytes just written at `offset` gives exactly those bytes,
/// and the file's other bytes keep their values (with zeros in any gap).
pub proof fn law_read_after_write(data: Seq<u8>, offset: int, buf: Seq<u8>)
    requires
        0 <= offset,
    ensures
        ({
            let w = write_bytes(data, offset, buf);
            &&& read_len(w.len() as int, offset, buf.len() as int) == buf.len()
            &&& Seq::new(buf.len(), |k: int| w[offset + k]) == buf
            &&& forall|i: int| 0 <= i < data.len() && !(offset <= i < offset + buf.len()) ==> #[trigger] w[i] == data[i]
            &&& forall|i: int| data.len() <= i < offset ==> #[trigger] w[i] == 0u8
        }),
{
    let w = write_bytes(data, offset, buf);
    assert(Seq::new(buf.len(), |k: int| w[offset + k]) =~= buf);
}

} // verus!

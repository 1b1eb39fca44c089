//! The easy-fs file system: the inode area, inode allocation, and the
//! contents of every inode (the root directory's entries, and the bytes
//! of every regular file).
use vstd::prelude::*;
use crate::config::{
    INODE_DIRECT_COUNT, INODE_INDIRECT1_BOUND, INODE_INDIRECT1_COUNT, BLOCK_SZ, DIRENT_SZ, DISK_INODE_SIZE, INODES_PER_BLOCK, MAX_FILE_SIZE, NAME_LENGTH_LIMIT,
};

verus! {

/// The bytes that a name occupies in a directory entry.
pub open spec fn name_bytes(name: Seq<char>) -> Seq<u8> {
    vstd::utf8::encode_utf8(name)
}

/// A name that a directory entry can hold and give back unchanged:
/// at most `NAME_LENGTH_LIMIT` bytes, none of them the terminating zero.
pub open spec fn valid_name(name: Seq<char>) -> bool {
    &&& name_bytes(name).len() <= NAME_LENGTH_LIMIT
    &&& !name_bytes(name).contains(0u8)
}

/// Whether a directory entry can hold `name` and give it back unchanged.
pub fn is_valid_name(name: &str) -> (b: bool)
    ensures
        b == valid_name(name@),
{
    let bytes = name.as_bytes();
    if bytes.len() > NAME_LENGTH_LIMIT {
        return false;
    }
    let mut i: usize = 0;
    while i < bytes.len()
        invariant
            bytes@ == name_bytes(name@),
            i <= bytes@.len(),
            forall|j: int| 0 <= j < i ==> bytes@[j] != 0u8,
        decreases bytes@.len() - i,
    {
        if bytes[i] == 0 {
            assert(name_bytes(name@)[i as int] == 0u8);
            return false;
        }
        i = i + 1;
    }
    true
}

/// One entry of a directory: a file name and the id of the inode it names.
pub struct DirEntry {
    name: String,
    inode_id: u32,
}

impl View for DirEntry {
    type V = (Seq<char>, u32);

    closed spec fn view(&self) -> (Seq<char>, u32) {
        (self.name@, self.inode_id)
    }
}

impl DirEntry {
    /// A directory entry that names inode `inode_id` by `name`.
    pub fn new(name: &str, inode_id: u32) -> (e: DirEntry)
        requires
            valid_name(name@),
        ensures
            e@ == (name@, inode_id),
    {
        DirEntry { name: name.to_owned(), inode_id }
    }

    /// The name stored in the entry.
    pub fn name(&self) -> (s: &str)
        ensures
            s@ == self@.0,
    {
        self.name.as_str()
    }

    /// The inode the entry names.
    pub fn inode_id(&self) -> (id: u32)
        ensures
            id == self@.1,
    {
        self.inode_id
    }

    /// Whether the entry's name is `name`.
    pub fn has_name(&self, name: &String) -> (b: bool)
        ensures
            b == (self@.0 == name@),
    {
        self.name == *name
    }
}

/// The position of an on-disk inode: the block that holds it and the byte
/// offset inside that block.
pub open spec fn inode_pos(inode_area_start_block: u32, inode_id: int) -> (int, int) {
    (
        inode_area_start_block + inode_id / (INODES_PER_BLOCK as int),
        (inode_id % (INODES_PER_BLOCK as int)) * (DISK_INODE_SIZE as int),
    )
}

/// Distinct inodes lie at distinct positions.
pub proof fn lemma_inode_pos_injective(start: u32, a: int, b: int)
    requires
        0 <= a,
        0 <= b,
        inode_pos(start, a) == inode_pos(start, b),
    ensures
        a == b,
{
}

/// Number of entries, among `entries`, that name inode `inode_id`.
pub open spec fn count_links(entries: Seq<(Seq<char>, u32)>, inode_id: int) -> nat
    decreases entries.len(),
{
    if entries.len() == 0 {
        0
    } else {
        count_links(entries.drop_last(), inode_id) + if entries.last().1 == inode_id {
            1nat
        } else {
            0nat
        }
    }
}

/// Number of entries, among `entries`, whose inode lies at position
/// `(block_id, block_offset)` of an inode area starting at block `start`.
pub open spec fn count_at_pos(
    entries: Seq<(Seq<char>, u32)>,
    start: u32,
    block_id: int,
    block_offset: int,
) -> nat
    decreases entries.len(),
{
    if entries.len() == 0 {
        0
    } else {
        count_at_pos(entries.drop_last(), start, block_id, block_offset) + if inode_pos(
            start,
            entries.last().1 as int,
        ) == (block_id, block_offset) {
            1nat
        } else {
            0nat
        }
    }
}

/// Index of the first entry at or after `i` whose name is `name`, or -1.
pub open spec fn first_index_from(entries: Seq<(Seq<char>, u32)>, name: Seq<char>, i: int) -> int
    decreases entries.len() - i,
{
    if i < 0 || i >= entries.len() {
        -1
    } else if entries[i].0 == name {
        i
    } else {
        first_index_from(entries, name, i + 1)
    }
}

/// Index of the first entry whose name is `name`, or -1.
pub open spec fn first_index(entries: Seq<(Seq<char>, u32)>, name: Seq<char>) -> int {
    first_index_from(entries, name, 0)
}

/// The inode that the first entry called `name` names, if there is one.
pub open spec fn lookup(entries: Seq<(Seq<char>, u32)>, name: Seq<char>) -> Option<u32> {
    let i = first_index(entries, name);
    if i < 0 {
        None
    } else {
        Some(entries[i].1)
    }
}

/// What `first_index_from` finds: a match with no match before it, or no match at all.
pub proof fn lemma_first_index_from(entries: Seq<(Seq<char>, u32)>, name: Seq<char>, i: int)
    requires
        0 <= i,
    ensures
        ({
            let r = first_index_from(entries, name, i);
            &&& -1 <= r < entries.len()
            &&& r >= 0 ==> (i <= r && entries[r].0 == name)
            &&& forall|j: int| i <= j < entries.len() && (r < 0 || j < r) ==> entries[j].0 != name
        }),
    decreases entries.len() - i,
{
    if i < entries.len() && entries[i].0 != name {
        lemma_first_index_from(entries, name, i + 1);
    }
}

/// What `first_index` finds: the first entry called `name`, or -1 when there is none.
pub proof fn lemma_first_index(entries: Seq<(Seq<char>, u32)>, name: Seq<char>)
    ensures
        ({
            let r = first_index(entries, name);
            &&& -1 <= r < entries.len()
            &&& r >= 0 ==> entries[r].0 == name
            &&& forall|j: int| 0 <= j < entries.len() && (r < 0 || j < r) ==> entries[j].0 != name
        }),
{
    lemma_first_index_from(entries, name, 0);
}

/// Number of data blocks that hold `size` bytes.
pub open spec fn data_blocks(size: int) -> int {
    (size + BLOCK_SZ as int - 1) / (BLOCK_SZ as int)
}

/// Number of blocks an inode of `size` bytes owns: its data blocks, and the
/// index blocks (first-level, second-level and the second level's
/// first-level blocks) that reach them.
pub open spec fn total_blocks(size: int) -> int {
    let d = data_blocks(size);
    d + (if d > INODE_DIRECT_COUNT as int { 1int } else { 0int }) + (if d > INODE_INDIRECT1_BOUND as int {
        1 + (d - INODE_INDIRECT1_BOUND as int + INODE_INDIRECT1_COUNT as int - 1) / (INODE_INDIRECT1_COUNT as int)
    } else {
        0int
    })
}

/// Number of blocks an inode of `old_size` bytes must be given to grow to
/// `new_size` bytes (none when it would not grow).
pub open spec fn blocks_needed(old_size: int, new_size: int) -> int {
    if new_size < old_size {
        0
    } else {
        total_blocks(new_size) - total_blocks(old_size)
    }
}

/// An inode's block count does not shrink as its size grows.
pub proof fn lemma_total_blocks_monotone(a: int, b: int)
    requires
        0 <= a <= b,
    ensures
        0 <= total_blocks(a) <= total_blocks(b),
        total_blocks(0) == 0,
{
    vstd::arithmetic::div_mod::lemma_div_is_ordered(a + 511, b + 511, 512);
    vstd::arithmetic::div_mod::lemma_div_pos_is_pos(a + 511, 512);
    let da = data_blocks(a);
    let db = data_blocks(b);
    if da > 156 {
        vstd::arithmetic::div_mod::lemma_div_is_ordered(da - 156 + 127, db - 156 + 127, 128);
    }
    if db > 156 {
        vstd::arithmetic::div_mod::lemma_div_pos_is_pos(db - 156 + 127, 128);
    }
}

/// Number of blocks that the inodes holding `files` own.
pub open spec fn file_blocks(files: Seq<Seq<u8>>) -> int
    decreases files.len(),
{
    if files.len() == 0 {
        0
    } else {
        file_blocks(files.drop_last()) + total_blocks(files.last().len() as int)
    }
}

/// Replacing one file changes the block count by the difference of the two files' counts.
pub proof fn lemma_file_blocks_update(files: Seq<Seq<u8>>, i: int, v: Seq<u8>)
    requires
        0 <= i < files.len(),
    ensures
        file_blocks(files.update(i, v)) == file_blocks(files) - total_blocks(files[i].len() as int)
            + total_blocks(v.len() as int),
    decreases files.len(),
{
    let u = files.update(i, v);
    if i == files.len() - 1 {
        assert(u.drop_last() =~= files.drop_last());
    } else {
        assert(u.drop_last() =~= files.drop_last().update(i, v));
        lemma_file_blocks_update(files.drop_last(), i, v);
    }
}

/// The block counts of files are never negative.
pub proof fn lemma_file_blocks_nonneg(files: Seq<Seq<u8>>)
    ensures
        file_blocks(files) >= 0,
    decreases files.len(),
{
    if files.len() > 0 {
        lemma_file_blocks_nonneg(files.drop_last());
        lemma_total_blocks_monotone(0, files.last().len() as int);
    }
}

/// The contents of the file system as plain values.
pub struct FsView {
    /// First block of the inode area.
    pub inode_area_start_block: u32,
    /// How many inodes the inode bitmap can hand out.
    pub inode_capacity: u32,
    /// The root directory's entries, in their on-disk order.
    pub entries: Seq<(Seq<char>, u32)>,
    /// The bytes of every allocated inode, indexed by inode id; inode 0 is
    /// the root directory, whose entries are kept in `entries`.
    pub files: Seq<Seq<u8>>,
    /// Number of blocks in the data area.
    pub data_capacity: u32,
    /// Number of data blocks the data bitmap can still hand out.
    pub free_data_blocks: u32,
}

impl FsView {
    /// The invariant every file system keeps.
    pub open spec fn wf(self) -> bool {
        &&& 1 <= self.files.len() <= self.inode_capacity
        &&& self.inode_area_start_block + (self.inode_capacity as int) / (INODES_PER_BLOCK as int)
            <= u32::MAX
        &&& forall|i: int| 0 <= i < self.files.len() ==> #[trigger] self.files[i].len() <= MAX_FILE_SIZE
        &&& self.entries.len() * DIRENT_SZ <= MAX_FILE_SIZE
        &&& forall|i: int|
            0 <= i < self.entries.len() ==> {
                &&& 1 <= #[trigger] self.entries[i].1 < self.files.len()
                &&& valid_name(self.entries[i].0)
            }
        &&& self.free_data_blocks + self.used_blocks() <= self.data_capacity
    }

    /// Number of data blocks the root directory's entries and the files occupy.
    pub open spec fn used_blocks(self) -> int {
        total_blocks(self.entries.len() * DIRENT_SZ) + file_blocks(self.files)
    }

    /// Number of blocks the root directory needs to take one more entry.
    pub open spec fn dir_grow_blocks(self) -> int {
        blocks_needed(self.entries.len() * DIRENT_SZ, (self.entries.len() + 1) * DIRENT_SZ)
    }

    /// The data bitmap can give the root directory the blocks for one more entry.
    pub open spec fn dir_blocks_available(self) -> bool {
        self.dir_grow_blocks() <= self.free_data_blocks
    }

    /// The data bitmap can give inode `inode_id` the blocks to grow to `new_size` bytes.
    pub open spec fn grow_blocks_available(self, inode_id: int, new_size: int) -> bool {
        blocks_needed(self.files[inode_id].len() as int, new_size) <= self.free_data_blocks
    }

    /// Handle `h` designates inode `inode_id`.
    pub open spec fn names_inode(self, h: Inode, inode_id: int) -> bool {
        &&& 0 <= inode_id < self.files.len()
        &&& inode_pos(self.inode_area_start_block, inode_id) == (
            h.block_id as int,
            h.block_offset as int,
        )
    }

    /// Handle `h` designates the root directory.
    pub open spec fn is_root(self, h: Inode) -> bool {
        self.names_inode(h, 0)
    }

    /// Handle `h` designates a regular file (any inode but the root).
    pub open spec fn is_file(self, h: Inode) -> bool {
        exists|id: int| 1 <= id && #[trigger] self.names_inode(h, id)
    }

    /// The inode that a file handle designates.
    pub open spec fn file_id(self, h: Inode) -> int {
        choose|id: int| 1 <= id && #[trigger] self.names_inode(h, id)
    }

    /// The handle of inode `inode_id`.
    pub open spec fn handle_of(self, inode_id: int) -> Inode {
        let (b, o) = inode_pos(self.inode_area_start_block, inode_id);
        Inode { block_id: b as usize, block_offset: o as usize }
    }

    /// Room is left for one more entry in the root directory.
    pub open spec fn dir_has_room(self) -> bool {
        (self.entries.len() + 1) * DIRENT_SZ <= MAX_FILE_SIZE
    }

    /// The inode bitmap can hand out one more inode.
    pub open spec fn inode_available(self) -> bool {
        self.files.len() < self.inode_capacity
    }
}

/// A handle on an on-disk inode, known by its position.
#[derive(Clone, Copy, Debug, PartialEq, Eq, Structural)]
pub struct Inode {
    /// Block that holds the inode.
    pub block_id: usize,
    /// Byte offset of the inode inside its block.
    pub block_offset: usize,
}

/// The easy-fs file system.
pub struct EasyFileSystem {
    inode_area_start_block: u32,
    inode_capacity: u32,
    root_entries: Vec<DirEntry>,
    inodes: Vec<Vec<u8>>,
    data_capacity: u32,
    free_data_blocks: u32,
}

impl View for EasyFileSystem {
    type V = FsView;

    closed spec fn view(&self) -> FsView {
        FsView {
            inode_area_start_block: self.inode_area_start_block,
            inode_capacity: self.inode_capacity,
            entries: self.root_entries@.map_values(|e: DirEntry| e@),
            files: self.inodes@.map_values(|v: Vec<u8>| v@),
            data_capacity: self.data_capacity,
            free_data_blocks: self.free_data_blocks,
        }
    }
}

impl EasyFileSystem {
    /// A fresh file system holding only the empty root directory (inode 0),
    /// with every one of its `data_capacity` data blocks free.
    pub fn create(inode_area_start_block: u32, inode_capacity: u32, data_capacity: u32) -> (fs: EasyFileSystem)
        requires
            1 <= inode_capacity,
            inode_area_start_block + (inode_capacity as int) / (INODES_PER_BLOCK as int) <= u32::MAX,
        ensures
            fs@.wf(),
            fs@.inode_area_start_block == inode_area_start_block,
            fs@.inode_capacity == inode_capacity,
            fs@.entries == Seq::<(Seq<char>, u32)>::empty(),
            fs@.files == seq![Seq::<u8>::empty()],
            fs@.data_capacity == data_capacity,
            fs@.free_data_blocks == data_capacity,
    {
        let mut inodes: Vec<Vec<u8>> = Vec::new();
        inodes.push(Vec::new());
        let fs = EasyFileSystem {
            inode_area_start_block,
            inode_capacity,
            root_entries: Vec::new(),
            inodes,
            data_capacity,
            free_data_blocks: data_capacity,
        };
        proof {
            lemma_total_blocks_monotone(0, 0);
            assert(seq![Seq::<u8>::empty()].drop_last() =~= Seq::<Seq<u8>>::empty());
            let one = seq![Seq::<u8>::empty()];
            assert(one.last().len() == 0);
            assert(file_blocks(one.drop_last()) == 0);
            assert(file_blocks(one) == 0);
        }
        assert(fs@.entries =~= Seq::<(Seq<char>, u32)>::empty());
        assert(fs@.files =~= seq![Seq::<u8>::empty()]);
        fs
    }

    /// Where inode `inode_id` lies on disk: its block and the offset inside the block.
    pub fn get_disk_inode_pos(&self, inode_id: u32) -> (pos: (u32, usize))
        requires
            self@.wf(),
            inode_id < self@.inode_capacity,
        ensures
            (pos.0 as int, pos.1 as int) == inode_pos(self@.inode_area_start_block, inode_id as int),
    {
        let block_id = self.inode_area_start_block + inode_id / INODES_PER_BLOCK;
        let offset = ((inode_id % INODES_PER_BLOCK) as usize) * DISK_INODE_SIZE;
        (block_id, offset)
    }

    /// The handle of the root directory.
    pub fn root_inode(&self) -> (h: Inode)
        requires
            self@.wf(),
        ensures
            self@.is_root(h),
            h == self@.handle_of(0),
    {
        let (block_id, block_offset) = self.get_disk_inode_pos(0);
        Inode::new(block_id, block_offset)
    }

    /// The handle of inode `inode_id`.
    pub fn inode_handle(&self, inode_id: u32) -> (h: Inode)
        requires
            self@.wf(),
            inode_id < self@.files.len(),
        ensures
            self@.names_inode(h, inode_id as int),
            h == self@.handle_of(inode_id as int),
    {
        let (block_id, block_offset) = self.get_disk_inode_pos(inode_id);
        Inode::new(block_id, block_offset)
    }

    /// The id of the allocated inode that handle `h` designates, if any.
    pub fn inode_id_of(&self, h: &Inode) -> (r: Option<u32>)
        requires
            self@.wf(),
        ensures
            match r {
                Some(id) => self@.names_inode(*h, id as int),
                None => forall|id: int| !#[trigger] self@.names_inode(*h, id),
            },
    {
        let start = self.inode_area_start_block as usize;
        if h.block_id < start || h.block_offset % DISK_INODE_SIZE != 0
            || h.block_offset >= BLOCK_SZ {
            return None;
        }
        let rel = h.block_id - start;
        if rel > (u32::MAX as usize) / 4 {
            return None;
        }
        let id = rel * 4 + h.block_offset / DISK_INODE_SIZE;
        if id < self.inodes.len() {
            Some(id as u32)
        } else {
            None
        }
    }

    /// Hands out the next free inode; it starts as an empty file.
    pub fn alloc_inode(&mut self) -> (inode_id: u32)
        requires
            old(self)@.wf(),
            old(self)@.inode_available(),
        ensures
            final(self)@.wf(),
            inode_id as int == old(self)@.files.len(),
            final(self)@.files == old(self)@.files.push(Seq::<u8>::empty()),
            final(self)@.entries == old(self)@.entries,
            final(self)@.inode_area_start_block == old(self)@.inode_area_start_block,
            final(self)@.inode_capacity == old(self)@.inode_capacity,
            final(self)@.data_capacity == old(self)@.data_capacity,
            final(self)@.free_data_blocks == old(self)@.free_data_blocks,
    {
        let inode_id = self.inodes.len() as u32;
        self.inodes.push(Vec::new());
        assert(self@.files =~= old(self)@.files.push(Seq::<u8>::empty()));
        assert(self@.entries =~= old(self)@.entries);
        proof {
            let f = old(self)@.files.push(Seq::<u8>::empty());
            assert(f.drop_last() =~= old(self)@.files);
            lemma_total_blocks_monotone(0, 0);
        }
        inode_id
    }
}

/// How many bytes a read of `buf_len` bytes at `offset` gets from a file of `size` bytes.
pub open spec fn read_len(size: int, offset: int, buf_len: int) -> int {
    if offset >= size {
        0
    } else if buf_len < size - offset {
        buf_len
    } else {
        size - offset
    }
}

/// The bytes of a file after `buf` is written at `offset`: the file grows, with
/// zero bytes in any gap, to hold the whole of `buf`.
pub open spec fn write_bytes(data: Seq<u8>, offset: int, buf: Seq<u8>) -> Seq<u8> {
    let n = if offset + buf.len() > data.len() {
        offset + buf.len()
    } else {
        data.len() as int
    };
    Seq::new(
        n as nat,
        |i: int|
            if offset <= i < offset + buf.len() {
                buf[i - offset]
            } else if i < data.len() {
                data[i]
            } else {
                0u8
            },
    )
}

/// Number of blocks an inode of `size` bytes owns.
pub fn total_blocks_of(size: usize) -> (n: usize)
    requires
        size <= MAX_FILE_SIZE,
    ensures
        n == total_blocks(size as int),
{
    let d = (size + BLOCK_SZ - 1) / BLOCK_SZ;
    let mut total = d;
    if d > INODE_DIRECT_COUNT {
        total = total + 1;
    }
    if d > INODE_INDIRECT1_BOUND {
        total = total + 1 + (d - INODE_INDIRECT1_BOUND + INODE_INDIRECT1_COUNT - 1) / INODE_INDIRECT1_COUNT;
    }
    total
}

impl EasyFileSystem {
    /// Number of data blocks the data bitmap can still hand out.
    pub fn free_data_blocks(&self) -> (n: u32)
        ensures
            n == self@.free_data_blocks,
    {
        self.free_data_blocks
    }

    /// Whether the data bitmap can give the root directory the blocks for one more entry.
    pub fn dir_blocks_available(&self) -> (b: bool)
        requires
            self@.wf(),
            self@.dir_has_room(),
        ensures
            b == self@.dir_blocks_available(),
    {
        let n = self.root_entries.len();
        proof {
            lemma_total_blocks_monotone((n * DIRENT_SZ) as int, ((n + 1) * DIRENT_SZ) as int);
        }
        total_blocks_of((n + 1) * DIRENT_SZ) - total_blocks_of(n * DIRENT_SZ) <= self.free_data_blocks as usize
    }

    /// Whether the data bitmap can give inode `inode_id` the blocks to grow to `new_size` bytes.
    pub fn grow_blocks_available(&self, inode_id: u32, new_size: usize) -> (b: bool)
        requires
            self@.wf(),
            inode_id < self@.files.len(),
            new_size <= MAX_FILE_SIZE,
        ensures
            b == self@.grow_blocks_available(inode_id as int, new_size as int),
    {
        let old_size = self.inodes[inode_id as usize].len();
        if new_size < old_size {
            return true;
        }
        proof {
            lemma_total_blocks_monotone(old_size as int, new_size as int);
        }
        total_blocks_of(new_size) - total_blocks_of(old_size) <= self.free_data_blocks as usize
    }

    /// Whether the root directory has room for one more entry.
    pub fn dir_has_room(&self) -> (b: bool)
        requires
            self@.wf(),
        ensures
            b == self@.dir_has_room(),
    {
        self.root_entries.len() < MAX_FILE_SIZE / DIRENT_SZ
    }

    /// Whether the inode bitmap can hand out one more inode.
    pub fn inode_available(&self) -> (b: bool)
        ensures
            b == self@.inode_available(),
    {
        self.inodes.len() < self.inode_capacity as usize
    }

    /// Number of entries in the root directory.
    pub fn entry_count(&self) -> (n: usize)
        ensures
            n == self@.entries.len(),
    {
        self.root_entries.len()
    }

    /// The `i`-th entry of the root directory.
    pub fn entry(&self, i: usize) -> (e: &DirEntry)
        requires
            i < self@.entries.len(),
        ensures
            e@ == self@.entries[i as int],
    {
        &self.root_entries[i]
    }

    /// Appends an entry to the root directory.
    pub fn push_entry(&mut self, e: DirEntry)
        requires
            old(self)@.wf(),
            old(self)@.dir_has_room(),
            old(self)@.dir_blocks_available(),
            valid_name(e@.0),
            1 <= e@.1 < old(self)@.files.len(),
        ensures
            final(self)@.wf(),
            final(self)@.entries == old(self)@.entries.push(e@),
            final(self)@.files == old(self)@.files,
            final(self)@.inode_area_start_block == old(self)@.inode_area_start_block,
            final(self)@.inode_capacity == old(self)@.inode_capacity,
            final(self)@.data_capacity == old(self)@.data_capacity,
            final(self)@.free_data_blocks == old(self)@.free_data_blocks - old(self)@.dir_grow_blocks(),
    {
        let n = self.root_entries.len();
        let grow = total_blocks_of((n + 1) * DIRENT_SZ) - total_blocks_of(n * DIRENT_SZ);
        proof {
            lemma_total_blocks_monotone((n * DIRENT_SZ) as int, ((n + 1) * DIRENT_SZ) as int);
        }
        self.free_data_blocks = self.free_data_blocks - grow as u32;
        self.root_entries.push(e);
        assert(self@.entries =~= old(self)@.entries.push(e@));
        assert(self@.files =~= old(self)@.files);
    }

    /// Removes the `i`-th entry of the root directory by moving the last entry into its place.
    pub fn swap_remove_entry(&mut self, i: usize)
        requires
            old(self)@.wf(),
            i < old(self)@.entries.len(),
        ensures
            final(self)@.wf(),
            final(self)@.entries == old(self)@.entries.update(
                i as int,
                old(self)@.entries.last(),
            ).drop_last(),
            final(self)@.files == old(self)@.files,
            final(self)@.inode_area_start_block == old(self)@.inode_area_start_block,
            final(self)@.inode_capacity == old(self)@.inode_capacity,
            final(self)@.data_capacity == old(self)@.data_capacity,
            final(self)@.free_data_blocks == old(self)@.free_data_blocks,
    {
        let _removed = self.root_entries.swap_remove(i);
        let ghost e = old(self)@.entries;
        assert(self@.entries =~= e.update(i as int, e.last()).drop_last());
        assert(self@.files =~= old(self)@.files);
        proof {
            let n = old(self)@.entries.len() as int;
            lemma_total_blocks_monotone((n - 1) * DIRENT_SZ, n * DIRENT_SZ);
        }
    }

    /// Size in bytes of inode `inode_id`.
    pub fn disk_size(&self, inode_id: u32) -> (n: usize)
        requires
            inode_id < self@.files.len(),
        ensures
            n == self@.files[inode_id as int].len(),
    {
        self.inodes[inode_id as usize].len()
    }

    /// Reads from inode `inode_id` at `offset` into `buf`; returns how many bytes were read.
    pub fn disk_read_at(&self, inode_id: u32, offset: usize, buf: &mut [u8]) -> (n: usize)
        requires
            inode_id < self@.files.len(),
        ensures
            n == read_len(self@.files[inode_id as int].len() as int, offset as int, old(buf)@.len() as int),
            final(buf)@.len() == old(buf)@.len(),
            forall|k: int| 0 <= k < n ==> #[trigger] final(buf)@[k] == self@.files[inode_id as int][offset + k],
            forall|k: int| n <= k < old(buf)@.len() ==> #[trigger] final(buf)@[k] == old(buf)@[k],
    {
        let data = &self.inodes[inode_id as usize];
        let size = data.len();
        if offset >= size {
            return 0;
        }
        let n = if buf.len() < size - offset { buf.len() } else { size - offset };
        let mut k: usize = 0;
        while k < n
            invariant
                n <= buf@.len(),
                offset + n <= size,
                size == data@.len(),
                data@ == self@.files[inode_id as int],
                buf@.len() == old(buf)@.len(),
                k <= n,
                forall|j: int| 0 <= j < k ==> #[trigger] buf@[j] == data@[offset + j],
                forall|j: int| k <= j < buf@.len() ==> #[trigger] buf@[j] == old(buf)@[j],
            decreases n - k,
        {
            buf[k] = data[offset + k];
            k = k + 1;
        }
        n
    }

    /// Grows inode `inode_id` to `new_size` bytes with zero bytes; a smaller size changes nothing.
    pub fn disk_increase_size(&mut self, inode_id: u32, new_size: usize)
        requires
            old(self)@.wf(),
            inode_id < old(self)@.files.len(),
            new_size <= MAX_FILE_SIZE,
            old(self)@.grow_blocks_available(inode_id as int, new_size as int),
        ensures
            final(self)@.wf(),
            final(self)@.files == old(self)@.files.update(
                inode_id as int,
                write_bytes(old(self)@.files[inode_id as int], new_size as int, Seq::<u8>::empty()),
            ),
            final(self)@.entries == old(self)@.entries,
            final(self)@.inode_area_start_block == old(self)@.inode_area_start_block,
            final(self)@.inode_capacity == old(self)@.inode_capacity,
            final(self)@.data_capacity == old(self)@.data_capacity,
            final(self)@.free_data_blocks == old(self)@.free_data_blocks - blocks_needed(old(self)@.files[inode_id as int].len() as int, new_size as int),
    {
        let ghost old_data = old(self)@.files[inode_id as int];
        let old_size = self.inodes[inode_id as usize].len();
        if new_size >= old_size {
            proof {
                lemma_total_blocks_monotone(old_size as int, new_size as int);
            }
            let grow = total_blocks_of(new_size) - total_blocks_of(old_size);
            self.free_data_blocks = self.free_data_blocks - grow as u32;
        }
        let data = &mut self.inodes[inode_id as usize];
        while data.len() < new_size
            invariant
                old_data.len() <= data@.len() <= if new_size > old_data.len() { new_size as int } else { old_data.len() as int },
                forall|j: int| 0 <= j < old_data.len() ==> #[trigger] data@[j] == old_data[j],
                forall|j: int| old_data.len() <= j < data@.len() ==> #[trigger] data@[j] == 0u8,
            decreases new_size - data@.len(),
        {
            data.push(0u8);
        }
        proof {
            assert(self@.files[inode_id as int] =~= write_bytes(old_data, new_size as int, Seq::<u8>::empty()));
            assert(self@.files =~= old(self)@.files.update(
                inode_id as int,
                write_bytes(old_data, new_size as int, Seq::<u8>::empty()),
            ));
            assert(self@.entries =~= old(self)@.entries);
            lemma_file_blocks_update(old(self)@.files, inode_id as int, self@.files[inode_id as int]);
        }
    }

    /// Writes `buf` into inode `inode_id` at `offset`, within its current size;
    /// returns how many bytes were written.
    pub fn disk_write_at(&mut self, inode_id: u32, offset: usize, buf: &[u8]) -> (n: usize)
        requires
            old(self)@.wf(),
            inode_id < old(self)@.files.len(),
            offset + buf@.len() <= old(self)@.files[inode_id as int].len(),
        ensures
            final(self)@.wf(),
            n == buf@.len(),
            final(self)@.files == old(self)@.files.update(
                inode_id as int,
                write_bytes(old(self)@.files[inode_id as int], offset as int, buf@),
            ),
            final(self)@.entries == old(self)@.entries,
            final(self)@.inode_area_start_block == old(self)@.inode_area_start_block,
            final(self)@.inode_capacity == old(self)@.inode_capacity,
            final(self)@.data_capacity == old(self)@.data_capacity,
            final(self)@.free_data_blocks == old(self)@.free_data_blocks,
    {
        let ghost old_data = old(self)@.files[inode_id as int];
        let data = &mut self.inodes[inode_id as usize];
        let mut k: usize = 0;
        while k < buf.len()
            invariant
                offset + buf@.len() <= old_data.len(),
                old_data.len() <= MAX_FILE_SIZE,
                data@.len() == old_data.len(),
                k <= buf@.len(),
                forall|j: int| 0 <= j < data@.len() ==> #[trigger] data@[j] == if offset <= j < offset + k {
                    buf@[j - offset]
                } else {
                    old_data[j]
                },
            decreases buf@.len() - k,
        {
            data.set(offset + k, buf[k]);
            k = k + 1;
        }
        proof {
            assert(self@.files[inode_id as int] =~= write_bytes(old_data, offset as int, buf@));
            assert(self@.files =~= old(self)@.files.update(
                inode_id as int,
                write_bytes(old_data, offset as int, buf@),
            ));
            assert(self@.entries =~= old(self)@.entries);
            lemma_file_blocks_update(old(self)@.files, inode_id as int, self@.files[inode_id as int]);
        }
        buf.len()
    }

    /// Empties inode `inode_id`, handing its data back.
    pub fn disk_clear_size(&mut self, inode_id: u32)
        requires
            old(self)@.wf(),
            inode_id < old(self)@.files.len(),
        ensures
            final(self)@.wf(),
            final(self)@.files == old(self)@.files.update(inode_id as int, Seq::<u8>::empty()),
            final(self)@.entries == old(self)@.entries,
            final(self)@.inode_area_start_block == old(self)@.inode_area_start_block,
            final(self)@.inode_capacity == old(self)@.inode_capacity,
            final(self)@.data_capacity == old(self)@.data_capacity,
            final(self)@.free_data_blocks == old(self)@.free_data_blocks + total_blocks(old(self)@.files[inode_id as int].len() as int),
    {
        assert(self.inodes@[inode_id as int]@ == old(self)@.files[inode_id as int]);
        assert(old(self)@.files[inode_id as int].len() <= MAX_FILE_SIZE);
        let freed = total_blocks_of(self.inodes[inode_id as usize].len());
        proof {
            lemma_total_blocks_monotone(0, old(self)@.files[inode_id as int].len() as int);
            lemma_file_blocks_update(old(self)@.files, inode_id as int, Seq::<u8>::empty());
            lemma_file_blocks_nonneg(old(self)@.files.update(inode_id as int, Seq::<u8>::empty()));
            lemma_total_blocks_monotone(0, old(self)@.entries.len() * DIRENT_SZ);
        }
        self.free_data_blocks = self.free_data_blocks + freed as u32;
        self.inodes.set(inode_id as usize, Vec::new());
        assert(self@.files =~= old(self)@.files.update(inode_id as int, Seq::<u8>::empty()));
        assert(self@.entries =~= old(self)@.entries);
    }
}

impl Inode {
    /// A handle on the inode at `block_offset` inside block `block_id`.
    pub fn new(block_id: u32, block_offset: usize) -> (h: Inode)
        ensures
            h.block_id == block_id as usize,
            h.block_offset == block_offset,
    {
        Inode { block_id: block_id as usize, block_offset }
    }
}

} // verus!

use vstd::prelude::*;

use crate::escape::escape_html;
use crate::escape::html_escaped;

verus! {

/// A subdirectory in a listing. The display name is already HTML-escaped.
pub struct FolderItem {
    pub name: String,
}

impl View for FolderItem {
    type V = Seq<char>;

    open spec fn view(&self) -> Seq<char> {
        self.name@
    }
}

/// A non-directory entry in a listing. The display name is already
/// HTML-escaped; `size` is the human-readable size, or empty when the
/// entry's metadata could not be read; `category` is the display label the
/// classifier chose for the name.
pub struct FileItem {
    pub name: String,
    pub size: String,
    pub category: String,
}

#[verifier::ext_equal]
pub struct FileItemV {
    pub name: Seq<char>,
    pub size: Seq<char>,
    pub category: Seq<char>,
}

impl View for FileItem {
    type V = FileItemV;

    open spec fn view(&self) -> FileItemV {
        FileItemV { name: self.name@, size: self.size@, category: self.category@ }
    }
}

/// One raw directory entry, as plain values: `name` is `None` when the
/// entry or its name could not be read (such an entry is skipped), `size`
/// holds the external size formatter's label for the byte count and is
/// `None` when metadata retrieval failed, and `category` is the external
/// classifier's label for the name.
pub struct DirEntryInfo {
    pub name: Option<String>,
    pub is_dir: bool,
    pub size: Option<String>,
    pub category: String,
}

#[verifier::ext_equal]
pub struct EntryV {
    pub name: Option<Seq<char>>,
    pub is_dir: bool,
    pub size: Option<Seq<char>>,
    pub category: Seq<char>,
}

impl View for DirEntryInfo {
    type V = EntryV;

    open spec fn view(&self) -> EntryV {
        EntryV {
            name: match self.name {
                Some(n) => Some(n@),
                None => None,
            },
            is_dir: self.is_dir,
            size: match self.size {
                Some(l) => Some(l@),
                None => None,
            },
            category: self.category@,
        }
    }
}

/// A whole directory listing, ready for encoding.
pub struct FileRespond {
    pub action: String,
    pub path: String,
    pub folders: Vec<FolderItem>,
    pub files: Vec<FileItem>,
}

#[verifier::ext_equal]
pub struct RespondV {
    pub action: Seq<char>,
    pub path: Seq<char>,
    pub folders: Seq<Seq<char>>,
    pub files: Seq<FileItemV>,
}

impl View for FileRespond {
    type V = RespondV;

    open spec fn view(&self) -> RespondV {
        RespondV {
            action: self.action@,
            path: self.path@,
            folders: self.folders@.map_values(|f: FolderItem| f@),
            files: self.files@.map_values(|f: FileItem| f@),
        }
    }
}

/// A size label with a bare `B` unit spelled out: a label ending in ` B`
/// ends in ` bytes` instead, and any other label is kept as it is. The
/// external size formatter always puts the unit last, so this reaches
/// exactly the plain-byte labels.
pub open spec fn spelled_size(l: Seq<char>) -> Seq<char> {
    if l.len() >= 2 && l[l.len() - 2] == ' ' && l[l.len() - 1] == 'B' {
        l.subrange(0, l.len() - 2) + (" bytes")@
    } else {
        l
    }
}

/// Rewrites a size label so that a bare `B` unit reads ` bytes`.
pub fn spell_out_bytes(label: &str) -> (r: String)
    ensures
        r@ == spelled_size(label@),
{
    let len = label.unicode_len();
    if len >= 2 && label.get_char(len - 2) == ' ' && label.get_char(len - 1) == 'B' {
        let mut out = label.substring_char(0, len - 2).to_owned();
        out.append(" bytes");
        out
    } else {
        label.to_owned()
    }
}

impl FolderItem {
    /// A folder entry: the display name is the raw filesystem name after
    /// HTML escaping.
    pub fn from_name(folder_name: &str) -> (r: FolderItem)
        ensures
            r@ == html_escaped(folder_name@),
    {
        FolderItem { name: escape_html(folder_name) }
    }
}

impl FileItem {
    /// A file entry whose metadata was readable: `size_label` is what the
    /// external size formatter produced for the byte count, `category` what
    /// the external classifier chose for the name.
    pub fn from(file_name: &str, category: &str, size_label: &str) -> (r: FileItem)
        ensures
            r@ == (FileItemV {
                name: html_escaped(file_name@),
                size: spelled_size(size_label@),
                category: category@,
            }),
    {
        FileItem {
            name: escape_html(file_name),
            size: spell_out_bytes(size_label),
            category: category.to_owned(),
        }
    }

    /// A file entry whose metadata could not be read: the size stays empty.
    pub fn from_name(file_name: &str, category: &str) -> (r: FileItem)
        ensures
            r@ == (FileItemV {
                name: html_escaped(file_name@),
                size: Seq::empty(),
                category: category@,
            }),
    {
        FileItem {
            name: escape_html(file_name),
            size: String::new(),
            category: category.to_owned(),
        }
    }
}

impl FileRespond {
    /// An empty listing response for the given raw request path: the action
    /// tag is fixed, the path HTML-escaped, and no entries are in yet.
    pub fn from_path(path_name: &str) -> (r: FileRespond)
        ensures
            r@ == (RespondV {
                action: ("sendFilelist")@,
                path: html_escaped(path_name@),
                folders: Seq::empty(),
                files: Seq::empty(),
            }),
    {
        let r = FileRespond {
            action: "sendFilelist".to_owned(),
            path: escape_html(path_name),
            folders: Vec::new(),
            files: Vec::new(),
        };
        proof {
            assert(r.folders@.map_values(|f: FolderItem| f@) =~= Seq::<Seq<char>>::empty());
            assert(r.files@.map_values(|f: FileItem| f@) =~= Seq::<FileItemV>::empty());
        }
        r
    }
}

/// The file entry that a readable non-directory entry yields.
pub open spec fn file_item_of(e: EntryV) -> FileItemV {
    FileItemV {
        name: match e.name {
            Some(n) => html_escaped(n),
            None => Seq::empty(),
        },
        size: match e.size {
            Some(l) => spelled_size(l),
            None => Seq::empty(),
        },
        category: e.category,
    }
}

/// The escaped names of the subdirectories among `entries`, in iteration
/// order. An entry without a readable name is skipped; nothing else is.
pub open spec fn folders_of(entries: Seq<EntryV>) -> Seq<Seq<char>>
    decreases entries.len(),
{
    if entries.len() == 0 {
        Seq::empty()
    } else {
        let init = folders_of(entries.drop_last());
        let e = entries.last();
        match e.name {
            Some(n) => if e.is_dir {
                init.push(html_escaped(n))
            } else {
                init
            },
            None => init,
        }
    }
}

/// The file entries among `entries`, in iteration order. An entry without a
/// readable name is skipped; a metadata failure only empties the size.
pub open spec fn files_of(entries: Seq<EntryV>) -> Seq<FileItemV>
    decreases entries.len(),
{
    if entries.len() == 0 {
        Seq::empty()
    } else {
        let init = files_of(entries.drop_last());
        let e = entries.last();
        match e.name {
            Some(n) => if e.is_dir {
                init
            } else {
                init.push(file_item_of(e))
            },
            None => init,
        }
    }
}

/// How one directory entry changes a response under assembly.
pub open spec fn added_entry(r: RespondV, e: EntryV) -> RespondV {
    match e.name {
        None => r,
        Some(n) => if e.is_dir {
            RespondV { folders: r.folders.push(html_escaped(n)), ..r }
        } else {
            RespondV { files: r.files.push(file_item_of(e)), ..r }
        },
    }
}

/// Adds one directory entry to the response: a subdirectory joins
/// `folders`, anything else joins `files`. An entry whose name could not be
/// read is skipped, and a file whose metadata failed keeps an empty size;
/// neither failure disturbs the rest of the listing.
pub fn add_entry(respond: &mut FileRespond, entry: &DirEntryInfo)
    ensures
        final(respond)@ == added_entry(old(respond)@, entry@),
{
    match &entry.name {
        None => {},
        Some(name) => {
            if entry.is_dir {
                let item = FolderItem::from_name(name.as_str());
                let ghost prev = respond.folders@;
                respond.folders.push(item);
                proof {
                    assert(respond.folders@.map_values(|f: FolderItem| f@) =~= prev.map_values(
                        |f: FolderItem| f@,
                    ).push(item@));
                    assert(respond@ =~= added_entry(old(respond)@, entry@));
                }
            } else {
                let item = match &entry.size {
                    Some(label) => FileItem::from(
                        name.as_str(),
                        entry.category.as_str(),
                        label.as_str(),
                    ),
                    None => FileItem::from_name(name.as_str(), entry.category.as_str()),
                };
                let ghost prev = respond.files@;
                respond.files.push(item);
                proof {
                    assert(respond.files@.map_values(|f: FileItem| f@) =~= prev.map_values(
                        |f: FileItem| f@,
                    ).push(item@));
                    assert(respond@ =~= added_entry(old(respond)@, entry@));
                }
            }
        },
    }
}

/// Law: a listing partitions the readable entries exactly: every
/// subdirectory name appears in `folders_of`, every other readable entry in
/// `files_of`, each exactly once, and a metadata failure never drops an
/// entry. Stated by induction over the entry sequence.
pub proof fn lemma_listing_counts(entries: Seq<EntryV>)
    ensures
        folders_of(entries).len() + files_of(entries).len() == entries.filter(
            |e: EntryV| e.name is Some,
        ).len(),
    decreases entries.len(),
{
    reveal(Seq::filter);
    if entries.len() > 0 {
        lemma_listing_counts(entries.drop_last());
    }
}

/// Law: whether an entry's metadata could be read changes only the size
/// shown for it: two entry sequences that agree on names and kinds yield
/// the same folder names and the same file names.
pub proof fn lemma_metadata_failure_keeps_names(a: Seq<EntryV>, b: Seq<EntryV>)
    requires
        a.len() == b.len(),
        forall|i: int| 0 <= i < a.len() ==> a[i].name == b[i].name && a[i].is_dir == b[i].is_dir,
    ensures
        folders_of(a) == folders_of(b),
        files_of(a).map_values(|f: FileItemV| f.name) == files_of(b).map_values(
            |f: FileItemV| f.name,
        ),
    decreases a.len(),
{
    if a.len() > 0 {
        lemma_metadata_failure_keeps_names(a.drop_last(), b.drop_last());
        assert(a.last().name == b.last().name && a.last().is_dir == b.last().is_dir);
        match a.last().name {
            None => {},
            Some(n) => {
                if !a.last().is_dir {
                    assert(files_of(a).map_values(|f: FileItemV| f.name) =~= files_of(
                        a.drop_last(),
                    ).map_values(|f: FileItemV| f.name).push(html_escaped(n)));
                    assert(files_of(b).map_values(|f: FileItemV| f.name) =~= files_of(
                        b.drop_last(),
                    ).map_values(|f: FileItemV| f.name).push(html_escaped(n)));
                }
            },
        }
    } else {
        assert(files_of(a).map_values(|f: FileItemV| f.name) =~= files_of(b).map_values(
            |f: FileItemV| f.name,
        ));
    }
}

} // verus!

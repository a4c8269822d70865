use vstd::prelude::*;

use crate::escape::html_escaped;
use crate::json::json_quote;
use crate::json::json_quoted;
use crate::listing::DirEntryInfo;
use crate::listing::EntryV;
use crate::listing::FileItemV;
use crate::listing::FileRespond;
use crate::listing::RespondV;
use crate::listing::add_entry;
use crate::listing::files_of;
use crate::listing::folders_of;

verus! {

/// One folder entry on the wire: an object with the escaped name.
pub open spec fn folder_object(name: Seq<char>) -> Seq<char> {
    ("{\"name\":")@ + json_quoted(name) + ("}")@
}

/// The comma-separated folder objects of a listing, in order.
pub open spec fn folder_array_items(names: Seq<Seq<char>>) -> Seq<char>
    decreases names.len(),
{
    if names.len() == 0 {
        Seq::empty()
    } else if names.len() == 1 {
        folder_object(names[0])
    } else {
        folder_array_items(names.drop_last()) + (",")@ + folder_object(names.last())
    }
}

/// One file entry on the wire: an object with name, size and category.
pub open spec fn file_object(f: FileItemV) -> Seq<char> {
    ("{\"name\":")@ + json_quoted(f.name) + (",\"size\":")@ + json_quoted(f.size) + (
    ",\"category\":")@ + json_quoted(f.category) + ("}")@
}

/// The comma-separated file objects of a listing, in order.
pub open spec fn file_array_items(items: Seq<FileItemV>) -> Seq<char>
    decreases items.len(),
{
    if items.len() == 0 {
        Seq::empty()
    } else if items.len() == 1 {
        file_object(items[0])
    } else {
        file_array_items(items.drop_last()) + (",")@ + file_object(items.last())
    }
}

/// The opening of an encoded listing, up to the folder array.
pub open spec fn respond_header(r: RespondV) -> Seq<char> {
    ("{\"action\":")@ + json_quoted(r.action) + (",\"path\":")@ + json_quoted(r.path) + (
    ",\"folders\":[")@
}

/// A whole listing response on the wire.
pub open spec fn respond_encoding(r: RespondV) -> Seq<char> {
    respond_header(r) + folder_array_items(r.folders) + ("],\"files\":[")@ + file_array_items(
        r.files,
    ) + ("]}")@
}

/// An error response on the wire.
pub open spec fn error_encoding(msg: Seq<char>) -> Seq<char> {
    ("{\"action\":\"sendError\",\"message\":")@ + json_quoted(msg) + ("}")@
}

/// A folder-creation response on the wire.
pub open spec fn new_folder_encoding(created: bool, msg: Seq<char>) -> Seq<char> {
    ("{\"action\":\"sendNewFolder\",\"created\":")@ + (if created {
        ("true")@
    } else {
        ("false")@
    }) + (",\"message\":")@ + json_quoted(msg) + ("}")@
}

/// The generic message shown when a requested path cannot be resolved or
/// read; it repeats the request, never the real filesystem layout.
pub open spec fn cannot_read_message(path: Seq<char>) -> Seq<char> {
    ("Cannot read the given path: \"")@ + path + ("\"")@
}

/// Serializes a listing. The encoder never fails: every well-formed
/// response value has exactly this encoding.
#[verifier::rlimit(60)]
pub fn encode_respond(r: &FileRespond) -> (out: String)
    ensures
        out@ == respond_encoding(r@),
{
    let mut out = String::new();
    out.append("{\"action\":");
    out.append(json_quote(r.action.as_str()).as_str());
    out.append(",\"path\":");
    out.append(json_quote(r.path.as_str()).as_str());
    out.append(",\"folders\":[");
    assert(out@ =~= respond_header(r@));
    let ghost names = r@.folders;
    let mut i: usize = 0;
    while i < r.folders.len()
        invariant
            i <= r.folders.len(),
            names == r@.folders,
            names.len() == r.folders.len(),
            forall|j: int| 0 <= j < names.len() ==> names[j] == r.folders@[j]@,
            out@ == respond_header(r@) + folder_array_items(names.take(i as int)),
        decreases r.folders.len() - i,
    {
        if i > 0 {
            out.append(",");
        }
        out.append("{\"name\":");
        out.append(json_quote(r.folders[i].name.as_str()).as_str());
        out.append("}");
        proof {
            assert(names.take(i + 1).drop_last() =~= names.take(i as int));
            assert(names.take(i + 1).last() == names[i as int]);
            assert(out@ =~= respond_header(r@) + folder_array_items(names.take(i + 1)));
        }
        i = i + 1;
    }
    proof {
        assert(names.take(r.folders@.len() as int) =~= names);
    }
    out.append("],\"files\":[");
    let ghost head = respond_header(r@) + folder_array_items(r@.folders) + ("],\"files\":[")@;
    assert(out@ =~= head);
    let ghost items = r@.files;
    let mut k: usize = 0;
    while k < r.files.len()
        invariant
            k <= r.files.len(),
            head == respond_header(r@) + folder_array_items(r@.folders) + ("],\"files\":[")@,
            items == r@.files,
            items.len() == r.files.len(),
            forall|j: int| 0 <= j < items.len() ==> items[j] == r.files@[j]@,
            out@ == head + file_array_items(items.take(k as int)),
        decreases r.files.len() - k,
    {
        if k > 0 {
            out.append(",");
        }
        out.append("{\"name\":");
        out.append(json_quote(r.files[k].name.as_str()).as_str());
        out.append(",\"size\":");
        out.append(json_quote(r.files[k].size.as_str()).as_str());
        out.append(",\"category\":");
        out.append(json_quote(r.files[k].category.as_str()).as_str());
        out.append("}");
        proof {
            assert(items.take(k + 1).drop_last() =~= items.take(k as int));
            assert(items.take(k + 1).last() == items[k as int]);
            assert(out@ =~= head + file_array_items(items.take(k + 1)));
        }
        k = k + 1;
    }
    proof {
        assert(items.take(r.files@.len() as int) =~= items);
    }
    out.append("]}");
    proof {
        assert(out@ =~= respond_encoding(r@));
    }
    out
}

/// Serializes an error response. The encoder never fails.
pub fn encode_error(message: &str) -> (r: String)
    ensures
        r@ == error_encoding(message@),
{
    let mut out = String::new();
    out.append("{\"action\":\"sendError\",\"message\":");
    out.append(json_quote(message).as_str());
    out.append("}");
    proof {
        assert(out@ =~= error_encoding(message@));
    }
    out
}

/// Serializes a folder-creation response. The encoder never fails.
pub fn encode_new_folder(created: bool, message: &str) -> (r: String)
    ensures
        r@ == new_folder_encoding(created, message@),
{
    let mut out = String::new();
    out.append("{\"action\":\"sendNewFolder\",\"created\":");
    if created {
        out.append("true");
    } else {
        out.append("false");
    }
    out.append(",\"message\":");
    out.append(json_quote(message).as_str());
    out.append("}");
    proof {
        assert(out@ =~= new_folder_encoding(created, message@));
    }
    out
}

/// The deep view of a raw entry sequence.
pub open spec fn entries_view(es: Seq<DirEntryInfo>) -> Seq<EntryV> {
    es.map_values(|e: DirEntryInfo| e@)
}

/// The listing response assembled for a request: the fixed action tag, the
/// escaped request path, and the readable entries split into folders and
/// files in iteration order.
pub open spec fn listing_respond_of(path_raw: Seq<char>, ev: Seq<EntryV>) -> RespondV {
    RespondV {
        action: ("sendFilelist")@,
        path: html_escaped(path_raw),
        folders: folders_of(ev),
        files: files_of(ev),
    }
}

/// The complete response for one listing request. `path_end` is the raw
/// client-supplied path; `entries` is what reading the securely resolved
/// directory yielded, or `None` when resolution or the directory read
/// failed. The result is always one well-formed encoded response: a failure
/// yields the generic cannot-read message, never an unhandled fault.
pub fn get_file_respond(path_end: &str, entries: Option<&Vec<DirEntryInfo>>) -> (r: String)
    ensures
        match entries {
            None => r@ == error_encoding(cannot_read_message(path_end@)),
            Some(es) => r@ == respond_encoding(listing_respond_of(path_end@, entries_view(es@))),
        },
{
    match entries {
        None => {
            let mut msg = String::new();
            msg.append("Cannot read the given path: \"");
            msg.append(path_end);
            msg.append("\"");
            proof {
                assert(msg@ =~= cannot_read_message(path_end@));
            }
            encode_error(msg.as_str())
        },
        Some(es) => {
            let mut respond = FileRespond::from_path(path_end);
            let ghost ev = entries_view(es@);
            proof {
                assert(ev.take(0) =~= Seq::<EntryV>::empty());
                assert(respond@ =~= (RespondV {
                    action: ("sendFilelist")@,
                    path: html_escaped(path_end@),
                    folders: folders_of(ev.take(0)),
                    files: files_of(ev.take(0)),
                }));
            }
            let mut i: usize = 0;
            while i < es.len()
                invariant
                    i <= es.len(),
                    ev == entries_view(es@),
                    ev.len() == es@.len(),
                    respond@ == (RespondV {
                        action: ("sendFilelist")@,
                        path: html_escaped(path_end@),
                        folders: folders_of(ev.take(i as int)),
                        files: files_of(ev.take(i as int)),
                    }),
                decreases es.len() - i,
            {
                add_entry(&mut respond, &es[i]);
                proof {
                    assert(ev[i as int] == es@[i as int]@);
                    assert(ev.take(i + 1).drop_last() =~= ev.take(i as int));
                    assert(ev.take(i + 1).last() == ev[i as int]);
                    assert(respond@ =~= (RespondV {
                        action: ("sendFilelist")@,
                        path: html_escaped(path_end@),
                        folders: folders_of(ev.take(i + 1)),
                        files: files_of(ev.take(i + 1)),
                    }));
                }
                i = i + 1;
            }
            proof {
                assert(ev.take(es@.len() as int) =~= ev);
                assert(respond@ =~= listing_respond_of(path_end@, ev));
            }
            encode_respond(&respond)
        },
    }
}

} // verus!

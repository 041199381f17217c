//! Record and folder data, and the pure decisions behind creating, updating
//! and importing them. Storage itself is the caller's concern: these
//! functions take the fresh identifiers and timestamps as plain values and
//! say exactly which record they produce.

use vstd::prelude::*;

verus! {

/// A stored text record.
#[derive(Debug, Clone)]
pub struct Prompt {
    pub id: String,
    pub text: String,
    pub header: Option<String>,
    pub source: String,
    pub url: Option<String>,
    pub folder_id: Option<String>,
    pub is_favorite: bool,
    pub use_count: i32,
    pub created_at: i64,
    pub updated_at: i64,
    pub sync_status: String,
    pub cloud_id: Option<String>,
}

/// A folder that groups records.
#[derive(Debug, Clone)]
pub struct Folder {
    pub id: String,
    pub name: String,
    pub icon: Option<String>,
    pub color: Option<String>,
    pub parent_id: Option<String>,
    pub sort_order: i32,
    pub created_at: i64,
}

/// The fields a caller supplies to create a record.
#[derive(Debug, Clone)]
pub struct CreatePromptInput {
    pub text: String,
    pub header: Option<String>,
    pub source: Option<String>,
    pub url: Option<String>,
    pub folder_id: Option<String>,
}

/// The fields a caller may change on a record; an absent field is kept.
#[derive(Debug)]
pub struct UpdatePromptInput {
    pub text: Option<String>,
    pub header: Option<String>,
    pub source: Option<String>,
    pub url: Option<String>,
    pub folder_id: Option<String>,
    pub is_favorite: Option<bool>,
}

/// The fields a caller supplies to create a folder.
#[derive(Debug)]
pub struct CreateFolderInput {
    pub name: String,
    pub icon: Option<String>,
    pub color: Option<String>,
    pub parent_id: Option<String>,
}

/// A request to export the selected records, optionally under a password.
#[derive(Debug)]
pub struct ExportPackInput {
    pub prompt_ids: Vec<String>,
    pub password: Option<String>,
}

/// The records built by an import, and how many there are.
#[derive(Debug)]
pub struct ImportResult {
    pub prompts: Vec<Prompt>,
    pub count: usize,
}

/// Build the record that a create request yields: the given fresh id, both
/// timestamps set to now, the source defaulted, and counters at zero.
pub fn make_prompt(input: CreatePromptInput, id: String, now: i64) -> (p: Prompt)
    ensures
        p.id == id,
        p.text == input.text,
        p.header == input.header,
        p.source@ == (match input.source {
            Some(s) => s@,
            None => "manual"@,
        }),
        p.url == input.url,
        p.folder_id == input.folder_id,
        p.is_favorite == false,
        p.use_count == 0,
        p.created_at == now,
        p.updated_at == now,
        p.sync_status@ == "local-only"@,
        p.cloud_id is None,
{
    let source = match input.source {
        Some(s) => s,
        None => String::from_str("manual"),
    };
    Prompt {
        id,
        text: input.text,
        header: input.header,
        source,
        url: input.url,
        folder_id: input.folder_id,
        is_favorite: false,
        use_count: 0,
        created_at: now,
        updated_at: now,
        sync_status: String::from_str("local-only"),
        cloud_id: None,
    }
}

/// Apply an update request to a record: every given field replaces the old
/// one, every absent field is kept, and the update timestamp is set to now.
pub fn apply_prompt_update(p: Prompt, input: UpdatePromptInput, now: i64) -> (q: Prompt)
    ensures
        q.id == p.id,
        q.text == (match input.text {
            Some(t) => t,
            None => p.text,
        }),
        q.header == (match input.header {
            Some(h) => Some(h),
            None => p.header,
        }),
        q.source == (match input.source {
            Some(s) => s,
            None => p.source,
        }),
        q.url == (match input.url {
            Some(u) => Some(u),
            None => p.url,
        }),
        q.folder_id == (match input.folder_id {
            Some(f) => Some(f),
            None => p.folder_id,
        }),
        q.is_favorite == (match input.is_favorite {
            Some(b) => b,
            None => p.is_favorite,
        }),
        q.use_count == p.use_count,
        q.created_at == p.created_at,
        q.updated_at == now,
        q.sync_status == p.sync_status,
        q.cloud_id == p.cloud_id,
{
    Prompt {
        text: match input.text {
            Some(t) => t,
            None => p.text,
        },
        header: match input.header {
            Some(h) => Some(h),
            None => p.header,
        },
        source: match input.source {
            Some(s) => s,
            None => p.source,
        },
        url: match input.url {
            Some(u) => Some(u),
            None => p.url,
        },
        folder_id: match input.folder_id {
            Some(f) => Some(f),
            None => p.folder_id,
        },
        is_favorite: match input.is_favorite {
            Some(b) => b,
            None => p.is_favorite,
        },
        updated_at: now,
        ..p
    }
}

/// Build the folder that a create request yields: the given fresh id, the
/// creation time, and a sort order one past the current maximum.
pub fn make_folder(input: CreateFolderInput, id: String, now: i64, max_order: i32) -> (f: Folder)
    requires
        max_order < i32::MAX,
    ensures
        f.id == id,
        f.name == input.name,
        f.icon == input.icon,
        f.color == input.color,
        f.parent_id == input.parent_id,
        f.sort_order == max_order + 1,
        f.created_at == now,
{
    Folder {
        id,
        name: input.name,
        icon: input.icon,
        color: input.color,
        parent_id: input.parent_id,
        sort_order: max_order + 1,
        created_at: now,
    }
}

/// Apply a folder update: every given field replaces the old one, every
/// absent field and everything else is kept.
pub fn apply_folder_update(
    f: Folder,
    name: Option<String>,
    icon: Option<String>,
    color: Option<String>,
) -> (g: Folder)
    ensures
        g.id == f.id,
        g.name == (match name {
            Some(n) => n,
            None => f.name,
        }),
        g.icon == (match icon {
            Some(i) => Some(i),
            None => f.icon,
        }),
        g.color == (match color {
            Some(c) => Some(c),
            None => f.color,
        }),
        g.parent_id == f.parent_id,
        g.sort_order == f.sort_order,
        g.created_at == f.created_at,
{
    Folder {
        name: match name {
            Some(n) => n,
            None => f.name,
        },
        icon: match icon {
            Some(i) => Some(i),
            None => f.icon,
        },
        color: match color {
            Some(c) => Some(c),
            None => f.color,
        },
        ..f
    }
}

/// The positions of the import entries that are kept: those whose text is not
/// empty.
pub open spec fn kept_indices(entries: Seq<CreatePromptInput>) -> Seq<int>
    decreases entries.len(),
{
    if entries.len() == 0 {
        Seq::empty()
    } else {
        let prefix = kept_indices(entries.drop_last());
        if entries.last().text@.len() == 0 {
            prefix
        } else {
            prefix.push(entries.len() - 1)
        }
    }
}

/// `p` is the record that importing entry `e` under the fresh id `id` at time
/// `now` yields: text and header carried over, the source defaulted, no
/// folder or link, and counters at zero.
pub open spec fn imported_from(p: Prompt, e: CreatePromptInput, id: String, now: i64) -> bool {
    &&& p.id == id
    &&& p.text@ == e.text@
    &&& (match e.header {
        Some(h) => p.header matches Some(g) && g@ == h@,
        None => p.header is None,
    })
    &&& p.source@ == (match e.source {
        Some(s) => s@,
        None => "manual"@,
    })
    &&& p.url is None
    &&& p.folder_id is None
    &&& p.is_favorite == false
    &&& p.use_count == 0
    &&& p.created_at == now
    &&& p.updated_at == now
    &&& p.sync_status@ == "local-only"@
    &&& p.cloud_id is None
}

/// Build the records that an import yields: one per entry with non-empty
/// text, in order, each under the fresh id at its entry's position.
pub fn build_imported_prompts(entries: &Vec<CreatePromptInput>, ids: &Vec<String>, now: i64) -> (r:
    ImportResult)
    requires
        ids@.len() == entries@.len(),
    ensures
        r.count == r.prompts@.len(),
        r.prompts@.len() == kept_indices(entries@).len(),
        forall|j: int|
            0 <= j < kept_indices(entries@).len() ==> imported_from(
                #[trigger] r.prompts@[j],
                entries@[kept_indices(entries@)[j]],
                ids@[kept_indices(entries@)[j]],
                now,
            ),
{
    let mut prompts: Vec<Prompt> = Vec::new();
    let mut i: usize = 0;
    while i < entries.len()
        invariant
            i <= entries@.len(),
            ids@.len() == entries@.len(),
            prompts@.len() == kept_indices(entries@.take(i as int)).len(),
            forall|j: int|
                0 <= j < prompts@.len() ==> imported_from(
                    #[trigger] prompts@[j],
                    entries@[kept_indices(entries@.take(i as int))[j]],
                    ids@[kept_indices(entries@.take(i as int))[j]],
                    now,
                ),
            forall|j: int|
                0 <= j < kept_indices(entries@.take(i as int)).len() ==> 0 <= #[trigger] kept_indices(
                    entries@.take(i as int),
                )[j] < i,
        decreases entries@.len() - i,
    {
        proof {
            assert(entries@.take(i + 1).drop_last() =~= entries@.take(i as int));
            assert(entries@.take(i + 1).last() == entries@[i as int]);
        }
        let e = &entries[i];
        if !e.text.as_str().is_empty() {
            let text = e.text.clone();
            let header = e.header.clone();
            let source = e.source.clone();
            let id = ids[i].clone();
            proof {
                assert(text@ == e.text@);
                assert(match e.header {
                    Some(h) => header matches Some(g) && g@ == h@,
                    None => header is None,
                });
                assert(match e.source {
                    Some(s) => source matches Some(g) && g@ == s@,
                    None => source is None,
                });
            }
            let p = make_prompt(
                CreatePromptInput { text, header, source, url: None, folder_id: None },
                id,
                now,
            );
            prompts.push(p);
        }
        i = i + 1;
    }
    proof {
        assert(entries@.take(entries@.len() as int) =~= entries@);
    }
    let count = prompts.len();
    ImportResult { prompts, count }
}

} // verus!

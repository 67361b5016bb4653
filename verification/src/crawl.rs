//! The walk down the remote folder tree.
//!
//! The caller lists one folder at a time and hands the listing to
//! [`CrawlTask::expand`], which says what each entry leads to: a picture to
//! send on, a subfolder to list as a task of its own, an entry to pass
//! over. Nothing here talks to the store.

use vstd::prelude::*;
use vstd::string::StringExecFns;
use crate::image_source::{
    create_image,
    image_of,
    EntryKind,
    File,
    FileView,
    Image,
    ImageView,
    Tag,
};
use crate::text::{join_path, join_path_view, text_or_empty, text_or_empty_view};

verus! {

/// Where in the tree a folder lies.
#[derive(Debug, Clone, PartialEq, Eq)]
pub enum Scope {
    /// The folder the crawl starts from. Its subfolders are the tags.
    Root,
    /// A tag's folder or one below it, with the path from the tag's folder
    /// down to it.
    Tagged { tag: Tag, full_path: String },
}

/// A scope as plain values.
pub enum ScopeView {
    Root,
    Tagged { tag: Tag, full_path: Seq<char> },
}

impl View for Scope {
    type V = ScopeView;

    open spec fn view(&self) -> ScopeView {
        match self {
            Scope::Root => ScopeView::Root,
            Scope::Tagged { tag, full_path } => ScopeView::Tagged {
                tag: *tag,
                full_path: full_path@,
            },
        }
    }
}

/// One folder to list.
#[derive(Debug, Clone, PartialEq, Eq)]
pub struct CrawlTask {
    pub folder_id: String,
    pub scope: Scope,
}

/// A task as plain values.
pub struct CrawlTaskView {
    pub folder_id: Seq<char>,
    pub scope: ScopeView,
}

impl View for CrawlTask {
    type V = CrawlTaskView;

    open spec fn view(&self) -> CrawlTaskView {
        CrawlTaskView { folder_id: self.folder_id@, scope: self.scope@ }
    }
}

/// What one entry of a listing leads to.
#[derive(Debug, Clone, PartialEq, Eq)]
pub enum CrawlStep {
    /// A picture to send on.
    Emit(Image),
    /// The entry is a picture or a folder, but the store gave it no id: an
    /// error to send on in its place.
    MissingId,
    /// A subfolder, to be listed as a task of its own.
    Descend(CrawlTask),
    /// Neither a supported picture nor a folder; holds the media type.
    Skip(String),
}

/// A step as plain values.
pub enum CrawlStepView {
    Emit(ImageView),
    MissingId,
    Descend(CrawlTaskView),
    Skip(Seq<char>),
}

impl View for CrawlStep {
    type V = CrawlStepView;

    open spec fn view(&self) -> CrawlStepView {
        match self {
            CrawlStep::Emit(image) => CrawlStepView::Emit(image@),
            CrawlStep::MissingId => CrawlStepView::MissingId,
            CrawlStep::Descend(task) => CrawlStepView::Descend(task@),
            CrawlStep::Skip(mime) => CrawlStepView::Skip(mime@),
        }
    }
}

/// What the entry `file`, listed in a folder of `scope`, leads to.
///
/// Directly under the root only named folders count: each is a tag, and
/// everything else there is passed over in silence. Below a tag a picture
/// in a supported encoding is sent on, a folder is descended into with the
/// same tag and a longer path, and anything else is skipped.
pub open spec fn entry_step(scope: ScopeView, file: FileView) -> Option<CrawlStepView> {
    match scope {
        ScopeView::Root => if file.kind() is Folder && file.name is Some {
            if file.has_id() {
                Some(
                    CrawlStepView::Descend(
                        CrawlTaskView {
                            folder_id: file.id->0,
                            scope: ScopeView::Tagged {
                                tag: Tag::of_name(file.name->0),
                                full_path: file.name->0,
                            },
                        },
                    ),
                )
            } else {
                Some(CrawlStepView::MissingId)
            }
        } else {
            None
        },
        ScopeView::Tagged { tag, full_path } => match file.kind() {
            EntryKind::Image(format) => if file.has_id() {
                Some(CrawlStepView::Emit(image_of(file, format, tag, full_path)))
            } else {
                Some(CrawlStepView::MissingId)
            },
            EntryKind::Folder => if file.has_id() {
                Some(
                    CrawlStepView::Descend(
                        CrawlTaskView {
                            folder_id: file.id->0,
                            scope: ScopeView::Tagged {
                                tag,
                                full_path: join_path_view(
                                    full_path,
                                    text_or_empty_view(file.name),
                                ),
                            },
                        },
                    ),
                )
            } else {
                Some(CrawlStepView::MissingId)
            },
            EntryKind::Unsupported => Some(CrawlStepView::Skip(file.mime())),
        },
    }
}

/// Whether the task that lists `file` ends at it: a picture without an id
/// is an error of the listing task itself. A subfolder without an id fails
/// alone, as its own task would.
pub open spec fn ends_task(scope: ScopeView, file: FileView) -> bool {
    scope is Tagged && file.kind() is Image && !file.has_id()
}

/// What a whole listing leads to, entry by entry, in the listing's order.
pub open spec fn steps_of(scope: ScopeView, files: Seq<FileView>) -> Seq<CrawlStepView>
    decreases files.len(),
{
    if files.len() == 0 {
        Seq::empty()
    } else {
        match entry_step(scope, files.first()) {
            None => steps_of(scope, files.drop_first()),
            Some(step) => if ends_task(scope, files.first()) {
                seq![step]
            } else {
                seq![step] + steps_of(scope, files.drop_first())
            },
        }
    }
}

/// A listing as plain values.
pub open spec fn files_view(files: Seq<File>) -> Seq<FileView> {
    files.map_values(|file: File| file@)
}

/// Steps as plain values.
pub open spec fn steps_view(steps: Seq<CrawlStep>) -> Seq<CrawlStepView> {
    steps.map_values(|step: CrawlStep| step@)
}

impl Scope {
    /// What one entry leads to.
    pub fn step(&self, file: &File) -> (r: Option<CrawlStep>)
        ensures
            r is Some <==> entry_step(self@, file@) is Some,
            r matches Some(step) ==> Some(step@) == entry_step(self@, file@),
    {
        let kind = file.kind();
        match self {
            Scope::Root => match (kind, &file.name) {
                (EntryKind::Folder, Some(name)) => match &file.id {
                    Some(id) => if id.as_str().is_empty() {
                        Some(CrawlStep::MissingId)
                    } else {
                        Some(
                            CrawlStep::Descend(
                                CrawlTask {
                                    folder_id: id.clone(),
                                    scope: Scope::Tagged {
                                        tag: Tag::of(name.as_str()),
                                        full_path: name.clone(),
                                    },
                                },
                            ),
                        )
                    },
                    None => Some(CrawlStep::MissingId),
                },
                _ => None,
            },
            Scope::Tagged { tag, full_path } => match kind {
                EntryKind::Image(format) => match create_image(
                    file,
                    format,
                    *tag,
                    full_path.as_str(),
                ) {
                    Ok(image) => Some(CrawlStep::Emit(image)),
                    Err(_) => Some(CrawlStep::MissingId),
                },
                EntryKind::Folder => match &file.id {
                    Some(id) => if id.as_str().is_empty() {
                        Some(CrawlStep::MissingId)
                    } else {
                        Some(
                            CrawlStep::Descend(
                                CrawlTask {
                                    folder_id: id.clone(),
                                    scope: Scope::Tagged {
                                        tag: *tag,
                                        full_path: join_path(
                                            full_path.as_str(),
                                            text_or_empty(&file.name),
                                        ),
                                    },
                                },
                            ),
                        )
                    },
                    None => Some(CrawlStep::MissingId),
                },
                EntryKind::Unsupported => Some(
                    CrawlStep::Skip(String::from_str(text_or_empty(&file.mime_type))),
                ),
            },
        }
    }

    /// Whether the listing task ends at this entry.
    pub fn ends_at(&self, file: &File) -> (r: bool)
        ensures
            r == ends_task(self@, file@),
    {
        match self {
            Scope::Root => false,
            Scope::Tagged { .. } => match file.kind() {
                EntryKind::Image(_) => match &file.id {
                    Some(id) => id.as_str().is_empty(),
                    None => true,
                },
                _ => false,
            },
        }
    }
}

impl CrawlTask {
    /// The task that lists the folder the crawl starts from.
    pub fn root(folder_id: String) -> (r: CrawlTask)
        ensures
            r@ == (CrawlTaskView { folder_id: folder_id@, scope: ScopeView::Root }),
    {
        CrawlTask { folder_id, scope: Scope::Root }
    }

    /// Goes through the complete listing of the task's folder and says, in
    /// the listing's order, what each entry leads to.
    pub fn expand(&self, files: &Vec<File>) -> (r: Vec<CrawlStep>)
        ensures
            steps_view(r@) == steps_of(self.scope@, files_view(files@)),
    {
        let ghost listing = files_view(files@);
        let mut steps: Vec<CrawlStep> = Vec::new();
        let mut i: usize = 0;
        assert(listing.skip(0) =~= listing);
        while i < files.len()
            invariant
                listing == files_view(files@),
                i <= files@.len(),
                steps_view(steps@) + steps_of(self.scope@, listing.skip(i as int)) =~= steps_of(
                    self.scope@,
                    listing,
                ),
            decreases files@.len() - i,
        {
            let file = &files[i];
            proof {
                assert(listing.skip(i as int).first() == file@);
                assert(listing.skip(i as int).drop_first() =~= listing.skip(i + 1));
            }
            let ghost before = steps@;
            match self.scope.step(file) {
                Some(step) => {
                    steps.push(step);
                    assert(steps_view(steps@) =~= steps_view(before).push(step@));
                    if self.scope.ends_at(file) {
                        return steps;
                    }
                },
                None => {},
            }
            i += 1;
        }
        steps
    }
}

/// A remote folder tree, as far as a crawl can see it: an entry together
/// with the entries listed under it (none, unless it is a folder).
pub struct Node {
    pub entry: FileView,
    pub children: Seq<Node>,
}

/// The entries of `nodes`, as the store lists them.
pub open spec fn listing(nodes: Seq<Node>) -> Seq<FileView> {
    nodes.map_values(|node: Node| node.entry)
}

/// What the steps of one listing send on by themselves: a picture for each
/// `Emit`, an error for each `MissingId`.
pub open spec fn sent_by(steps: Seq<CrawlStepView>) -> Seq<Result<ImageView, ()>>
    decreases steps.len(),
{
    if steps.len() == 0 {
        Seq::empty()
    } else {
        let rest = sent_by(steps.drop_first());
        match steps.first() {
            CrawlStepView::Emit(image) => seq![Ok(image)] + rest,
            CrawlStepView::MissingId => seq![Err(())] + rest,
            _ => rest,
        }
    }
}

/// Everything the crawl sends on for the folders and files `nodes`, listed
/// in a folder of `scope`: the pictures, and `Err` for each entry without
/// an id. The order is that of a walk that enters each subfolder where it
/// is listed; tasks that run side by side interleave these same items.
pub open spec fn crawl(scope: ScopeView, nodes: Seq<Node>) -> Seq<Result<ImageView, ()>>
    decreases nodes,
{
    if nodes.len() == 0 {
        Seq::empty()
    } else {
        let first = nodes.first();
        let rest = nodes.drop_first();
        match entry_step(scope, first.entry) {
            None => crawl(scope, rest),
            Some(CrawlStepView::Skip(_)) => crawl(scope, rest),
            Some(CrawlStepView::Emit(image)) => seq![Ok(image)] + crawl(scope, rest),
            Some(CrawlStepView::MissingId) => if ends_task(scope, first.entry) {
                seq![Err(())]
            } else {
                seq![Err(())] + crawl(scope, rest)
            },
            Some(CrawlStepView::Descend(task)) => crawl(task.scope, first.children) + crawl(
                scope,
                rest,
            ),
        }
    }
}

/// The number of folders listed while crawling `nodes`: one task each.
pub open spec fn tasks(scope: ScopeView, nodes: Seq<Node>) -> nat
    decreases nodes,
{
    if nodes.len() == 0 {
        0
    } else {
        let first = nodes.first();
        let rest = nodes.drop_first();
        match entry_step(scope, first.entry) {
            Some(CrawlStepView::MissingId) => if ends_task(scope, first.entry) {
                0
            } else {
                tasks(scope, rest)
            },
            Some(CrawlStepView::Descend(task)) => 1 + tasks(task.scope, first.children) + tasks(
                scope,
                rest,
            ),
            _ => tasks(scope, rest),
        }
    }
}

/// The folders among `nodes` and below them.
pub open spec fn folders(nodes: Seq<Node>) -> nat
    decreases nodes,
{
    if nodes.len() == 0 {
        0
    } else {
        let here: nat = match nodes.first().entry.kind() {
            EntryKind::Folder => 1 + folders(nodes.first().children),
            _ => 0,
        };
        here + folders(nodes.drop_first())
    }
}

/// The pictures in a supported encoding among `nodes` and below them.
pub open spec fn pictures(nodes: Seq<Node>) -> nat
    decreases nodes,
{
    if nodes.len() == 0 {
        0
    } else {
        let here: nat = match nodes.first().entry.kind() {
            EntryKind::Image(_) => 1,
            EntryKind::Folder => pictures(nodes.first().children),
            EntryKind::Unsupported => 0,
        };
        here + pictures(nodes.drop_first())
    }
}

/// The pictures below the tags: those in and below the folders among
/// `nodes`, which lie directly under the root.
pub open spec fn tagged_pictures(nodes: Seq<Node>) -> nat
    decreases nodes,
{
    if nodes.len() == 0 {
        0
    } else {
        let here: nat = match nodes.first().entry.kind() {
            EntryKind::Folder => pictures(nodes.first().children),
            _ => 0,
        };
        here + tagged_pictures(nodes.drop_first())
    }
}

/// Every picture and every folder among `nodes` and below them has an id.
pub open spec fn all_named(nodes: Seq<Node>) -> bool
    decreases nodes,
{
    nodes.len() > 0 ==> {
        let first = nodes.first();
        &&& match first.entry.kind() {
            EntryKind::Image(_) => first.entry.has_id(),
            EntryKind::Folder => first.entry.has_id() && all_named(first.children),
            EntryKind::Unsupported => true,
        }
        &&& all_named(nodes.drop_first())
    }
}

/// Every folder directly among `nodes` has a name.
pub open spec fn tags_named(nodes: Seq<Node>) -> bool {
    forall|i: int|
        0 <= i < nodes.len() && (#[trigger] nodes[i]).entry.kind() is Folder
            ==> nodes[i].entry.name is Some
}

/// Whether each item is a picture.
pub open spec fn all_ok(items: Seq<Result<ImageView, ()>>) -> bool {
    forall|i: int| 0 <= i < items.len() ==> (#[trigger] items[i]) is Ok
}

/// Where no folder among `nodes` holds anything, the crawl sends on just
/// what the steps of their listing send.
pub proof fn lemma_crawl_of_one_listing(scope: ScopeView, nodes: Seq<Node>)
    requires
        forall|i: int| 0 <= i < nodes.len() ==> (#[trigger] nodes[i]).children.len() == 0,
    ensures
        crawl(scope, nodes) == sent_by(steps_of(scope, listing(nodes))),
    decreases nodes.len(),
{
    if nodes.len() > 0 {
        let first = nodes.first();
        let rest = nodes.drop_first();
        assert forall|i: int| 0 <= i < rest.len() implies (#[trigger] rest[i]).children.len()
            == 0 by {
            assert(rest[i] == nodes[i + 1]);
        }
        lemma_crawl_of_one_listing(scope, rest);
        assert(listing(nodes).first() == first.entry);
        assert(listing(nodes).drop_first() =~= listing(rest));
        let steps = steps_of(scope, listing(nodes));
        let tail = steps_of(scope, listing(rest));
        match entry_step(scope, first.entry) {
            None => {
                assert(steps == tail);
            },
            Some(step) => {
                assert(steps.first() == step);
                if ends_task(scope, first.entry) {
                    assert(steps.drop_first() =~= Seq::<CrawlStepView>::empty());
                    assert(sent_by(steps.drop_first()) =~= Seq::<Result<ImageView, ()>>::empty());
                    assert(sent_by(steps) =~= seq![Err(())]);
                } else {
                    assert(steps.drop_first() =~= tail);
                    if let CrawlStepView::Descend(task) = step {
                        assert(crawl(task.scope, first.children) =~= Seq::<
                            Result<ImageView, ()>,
                        >::empty());
                        assert(crawl(scope, nodes) =~= crawl(scope, rest));
                    }
                }
            },
        }
    } else {
        assert(listing(nodes) =~= Seq::<FileView>::empty());
    }
}

/// A crawl lists no folder twice and none that is not there: it runs at
/// most one task for each folder of the tree, so it ends.
pub proof fn lemma_tasks_bounded(scope: ScopeView, nodes: Seq<Node>)
    ensures
        tasks(scope, nodes) <= folders(nodes),
    decreases nodes,
{
    if nodes.len() > 0 {
        let first = nodes.first();
        lemma_tasks_bounded(scope, nodes.drop_first());
        match entry_step(scope, first.entry) {
            Some(CrawlStepView::Descend(task)) => {
                lemma_tasks_bounded(task.scope, first.children);
            },
            _ => {},
        }
    }
}

/// Below a tag, in a tree where every picture and folder has an id, the
/// crawl sends on exactly the pictures in a supported encoding, one item
/// each and no error, and lists every folder once.
pub proof fn lemma_crawl_below_tag(tag: Tag, full_path: Seq<char>, nodes: Seq<Node>)
    requires
        all_named(nodes),
    ensures
        crawl(ScopeView::Tagged { tag, full_path }, nodes).len() == pictures(nodes),
        all_ok(crawl(ScopeView::Tagged { tag, full_path }, nodes)),
        tasks(ScopeView::Tagged { tag, full_path }, nodes) == folders(nodes),
    decreases nodes,
{
    let scope = ScopeView::Tagged { tag, full_path };
    if nodes.len() > 0 {
        let first = nodes.first();
        lemma_crawl_below_tag(tag, full_path, nodes.drop_first());
        match entry_step(scope, first.entry) {
            Some(CrawlStepView::Descend(task)) => {
                lemma_crawl_below_tag(
                    task.scope->tag,
                    task.scope->full_path,
                    first.children,
                );
            },
            _ => {},
        }
    }
}

/// From the root of a finite tree in which every picture and folder has an
/// id and every tag's folder a name, the crawl sends on exactly one item
/// for each picture in a supported encoding below the tags, sends no
/// error, and runs no more tasks than the tree has folders, the root
/// included.
pub proof fn lemma_crawl_from_root(nodes: Seq<Node>)
    requires
        all_named(nodes),
        tags_named(nodes),
    ensures
        crawl(ScopeView::Root, nodes).len() == tagged_pictures(nodes),
        all_ok(crawl(ScopeView::Root, nodes)),
        1 + tasks(ScopeView::Root, nodes) == 1 + folders(nodes),
    decreases nodes.len(),
{
    if nodes.len() > 0 {
        let first = nodes.first();
        let rest = nodes.drop_first();
        assert forall|i: int| 0 <= i < rest.len() && (#[trigger] rest[i]).entry.kind() is Folder
            implies rest[i].entry.name is Some by {
            assert(rest[i] == nodes[i + 1]);
        }
        lemma_crawl_from_root(rest);
        match entry_step(ScopeView::Root, first.entry) {
            Some(CrawlStepView::Descend(task)) => {
                lemma_crawl_below_tag(
                    task.scope->tag,
                    task.scope->full_path,
                    first.children,
                );
            },
            _ => {},
        }
    }
}

/// Every picture among the steps of a listing comes from an entry of that
/// listing which is in a supported encoding and has an id, and carries
/// that encoding and that id. So an entry in an encoding that is not
/// supported never becomes a picture, whatever else the listing holds.
pub proof fn lemma_unsupported_never_emitted(scope: ScopeView, files: Seq<FileView>)
    ensures
        forall|k: int|
            0 <= k < steps_of(scope, files).len() ==> (#[trigger] steps_of(scope, files)[k]
                matches CrawlStepView::Emit(image) ==> exists|i: int|
                0 <= i < files.len() && #[trigger] files[i].kind() == EntryKind::Image(
                    image.format,
                ) && files[i].has_id() && files[i].id == Some(image.id)),
    decreases files.len(),
{
    if files.len() > 0 {
        let rest = files.drop_first();
        lemma_unsupported_never_emitted(scope, rest);
        let steps = steps_of(scope, files);
        assert forall|k: int| 0 <= k < steps.len() implies (#[trigger] steps[k]
            matches CrawlStepView::Emit(image) ==> exists|i: int|
            0 <= i < files.len() && #[trigger] files[i].kind() == EntryKind::Image(image.format)
                && files[i].has_id() && files[i].id == Some(image.id)) by {
            if let CrawlStepView::Emit(image) = steps[k] {
                if entry_step(scope, files.first()) is Some && k == 0 {
                    assert(files[0].kind() == EntryKind::Image(image.format));
                } else {
                    let j = if entry_step(scope, files.first()) is Some {
                        k - 1
                    } else {
                        k
                    };
                    assert(steps_of(scope, rest)[j] == steps[k]);
                    let i = choose|i: int|
                        0 <= i < rest.len() && #[trigger] rest[i].kind() == EntryKind::Image(
                            image.format,
                        ) && rest[i].has_id() && rest[i].id == Some(image.id);
                    assert(files[i + 1] == rest[i]);
                }
            }
        }
    }
}

} // verus!

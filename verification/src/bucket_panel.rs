//! The panel that lists buckets and filters: its folders, one for each
//! adapter and one for the filters that users have made, which folders are
//! open, and what is selected.

use vstd::prelude::*;
use crate::bucket_panel_location::{BucketPanelLocation, BucketPanelLocationType};
use crate::filter::{Filter, FilterType};
use crate::selection::adapter_selected;
use crate::text::{precedes, text_equals, text_precedes, texts};

verus! {

/// What an entry of a folder holds.
pub struct EntryModel {
    pub label: Seq<char>,
    pub adapter: Seq<char>,
    pub filter: Seq<char>,
    pub entry_type: FilterType,
}

/// What a folder of the panel holds.
pub struct FolderModel {
    pub label: Seq<char>,
    pub adapter: Seq<char>,
    pub entries: Seq<EntryModel>,
    pub is_open: bool,
}

/// An entry of a folder: a filter under its label. Its view is an
/// [`EntryModel`].
#[derive(Clone)]
pub struct BucketPanelEntry {
    pub label: String,
    pub adapter: String,
    pub filter: String,
    pub entry_type: FilterType,
}

impl View for BucketPanelEntry {
    type V = EntryModel;

    open spec fn view(&self) -> EntryModel {
        EntryModel {
            label: self.label@,
            adapter: self.adapter@,
            filter: self.filter@,
            entry_type: self.entry_type,
        }
    }
}

/// What the entries hold.
pub open spec fn entry_models(entries: Seq<BucketPanelEntry>) -> Seq<EntryModel> {
    entries.map_values(|entry: BucketPanelEntry| entry@)
}

/// A folder of the panel: the filters of one adapter, or those that users
/// have made. Its view is a [`FolderModel`].
#[derive(Clone)]
pub struct BucketPanelFolder {
    pub label: String,
    pub adapter: String,
    pub entries: Vec<BucketPanelEntry>,
    pub is_open: bool,
}

impl View for BucketPanelFolder {
    type V = FolderModel;

    open spec fn view(&self) -> FolderModel {
        FolderModel {
            label: self.label@,
            adapter: self.adapter@,
            entries: entry_models(self.entries@),
            is_open: self.is_open,
        }
    }
}

/// What the folders hold.
pub open spec fn folder_models(folders: Seq<BucketPanelFolder>) -> Seq<FolderModel> {
    folders.map_values(|folder: BucketPanelFolder| folder@)
}

/// An adapter with the filters that it lists.
pub struct AdapterFilters {
    pub fancy_name: String,
    pub name: String,
    pub filters: Vec<Filter>,
}

/// The adapter under which the folder of the filters of users stands.
pub open spec fn custom_filters() -> Seq<char> {
    "_custom_filters"@
}

/// Whether the adapter of the given name is selected as a whole.
pub fn is_folder_in_panel(selected_filters: &Vec<BucketPanelLocation>, adapter: &String) -> (r:
    bool)
    ensures
        r == adapter_selected(selected_filters@, adapter@),
{
    let mut i: usize = 0;
    while i < selected_filters.len()
        invariant
            i <= selected_filters.len(),
            forall|j: int|
                0 <= j < i ==> !((#[trigger] selected_filters@[j]).entry_type
                    == BucketPanelLocationType::Adapter && selected_filters@[j].adapter@
                    == adapter@),
        decreases selected_filters.len() - i,
    {
        if selected_filters[i].adapter == *adapter && selected_filters[i].entry_type
            == BucketPanelLocationType::Adapter {
            return true;
        }
        i += 1;
    }
    false
}

/// Whether the entry of the given adapter is selected, as an entry or as a
/// filter.
pub open spec fn entry_selected(
    locations: Seq<BucketPanelLocation>,
    adapter: Seq<char>,
    entry: Seq<char>,
) -> bool {
    exists|i: int|
        0 <= i < locations.len() && (#[trigger] locations[i]).adapter@ == adapter
            && locations[i].section@ == entry && (locations[i].entry_type
            == BucketPanelLocationType::Entry || locations[i].entry_type
            == BucketPanelLocationType::Filter)
}

/// Whether the entry of the given adapter is selected.
pub fn is_entry_in_panel(
    selected_filters: &Vec<BucketPanelLocation>,
    adapter: &String,
    entry: &String,
) -> (r: bool)
    ensures
        r == entry_selected(selected_filters@, adapter@, entry@),
{
    let mut i: usize = 0;
    while i < selected_filters.len()
        invariant
            i <= selected_filters.len(),
            forall|j: int|
                0 <= j < i ==> !((#[trigger] selected_filters@[j]).adapter@ == adapter@
                    && selected_filters@[j].section@ == entry@ && (
                selected_filters@[j].entry_type == BucketPanelLocationType::Entry
                    || selected_filters@[j].entry_type == BucketPanelLocationType::Filter)),
        decreases selected_filters.len() - i,
    {
        let selection = &selected_filters[i];
        if selection.adapter == *adapter && selection.section == *entry && (selection.entry_type
            == BucketPanelLocationType::Entry || selection.entry_type
            == BucketPanelLocationType::Filter) {
            return true;
        }
        i += 1;
    }
    false
}

/// The first place at which a name stands in a list, if it stands in it.
pub open spec fn first_place(names: Seq<Seq<char>>, name: Seq<char>) -> Option<int>
    decreases names.len(),
{
    if names.len() == 0 {
        None
    } else if names[0] == name {
        Some(0)
    } else {
        match first_place(names.skip(1), name) {
            Some(at) => Some(at + 1),
            None => None,
        }
    }
}

/// Where a name stands first in a list of names.
fn find_first(names: &Vec<String>, name: &String) -> (r: Option<usize>)
    ensures
        match r {
            Some(at) => first_place(texts(names@), name@) == Some(at as int) && at < names@.len(),
            None => first_place(texts(names@), name@) is None,
        },
{
    let mut i: usize = 0;
    proof {
        assert(texts(names@).skip(0) =~= texts(names@));
    }
    while i < names.len()
        invariant
            i <= names.len(),
            first_place(texts(names@), name@) == match first_place(
                texts(names@).skip(i as int),
                name@,
            ) {
                Some(at) => Some(at + i),
                None => None,
            },
        decreases names.len() - i,
    {
        proof {
            assert(texts(names@).skip(i as int)[0] == names@[i as int]@);
            assert(texts(names@).skip(i as int).skip(1) =~= texts(names@).skip(i + 1));
        }
        if names[i] == *name {
            return Some(i);
        }
        i += 1;
    }
    None
}

/// Whether the folder with the given label is open.
pub fn is_folder_open(open_folders: &Vec<String>, label: &String) -> (r: bool)
    ensures
        r == (first_place(texts(open_folders@), label@) is Some),
{
    find_first(open_folders, label).is_some()
}

/// Opens the folder with the given label, or closes it where it is open.
pub fn open_close_folder_in_panel(open_folders: &mut Vec<String>, label: &String)
    ensures
        texts(final(open_folders)@) == match first_place(texts(old(open_folders)@), label@) {
            Some(at) => texts(old(open_folders)@).remove(at),
            None => texts(old(open_folders)@).push(label@),
        },
{
    match find_first(open_folders, label) {
        Some(index) => {
            open_folders.remove(index);
            proof {
                assert(texts(open_folders@) =~= texts(old(open_folders)@).remove(index as int));
            }
        },
        None => {
            open_folders.push(label.clone());
            proof {
                assert(texts(open_folders@) =~= texts(old(open_folders)@).push(label@));
            }
        },
    }
}

/// Selects a folder. Without the modifier it becomes the one selection; with
/// it, the folder is added to what is selected, unless its adapter is
/// selected as a whole.
pub fn toggle_folder_in_panel(
    selected_filters: &mut Vec<BucketPanelLocation>,
    folder: BucketPanelLocation,
    modifier_button: bool,
)
    ensures
        final(selected_filters)@ == if !modifier_button {
            seq![folder]
        } else if !adapter_selected(old(selected_filters)@, folder.adapter@) {
            old(selected_filters)@.push(folder)
        } else {
            old(selected_filters)@
        },
{
    if !modifier_button {
        selected_filters.clear();
        selected_filters.push(folder);
        proof {
            assert(selected_filters@ =~= seq![folder]);
        }
    } else if !is_folder_in_panel(selected_filters, &folder.adapter) {
        selected_filters.push(folder);
    }
}

/// Whether a filter is shown in the folder of the filters of users, not in
/// that of its adapter.
pub open spec fn is_custom(filter: Filter) -> bool {
    filter.filter_type is User
}

/// The entry that shows a filter: under the name of the filter.
pub open spec fn entry_of(filter: Filter) -> EntryModel {
    EntryModel {
        label: filter.identifier.name@,
        adapter: filter.identifier.adapter@,
        filter: filter.identifier.name@,
        entry_type: filter.filter_type,
    }
}

/// The entries of the filters that users have made.
pub open spec fn custom_entries(filters: Seq<Filter>) -> Seq<EntryModel>
    decreases filters.len(),
{
    if filters.len() == 0 {
        Seq::empty()
    } else if is_custom(filters.last()) {
        custom_entries(filters.drop_last()).push(entry_of(filters.last()))
    } else {
        custom_entries(filters.drop_last())
    }
}

/// The entries of the filters that an adapter has of its own.
pub open spec fn builtin_entries(filters: Seq<Filter>) -> Seq<EntryModel>
    decreases filters.len(),
{
    if filters.len() == 0 {
        Seq::empty()
    } else if is_custom(filters.last()) {
        builtin_entries(filters.drop_last())
    } else {
        builtin_entries(filters.drop_last()).push(entry_of(filters.last()))
    }
}

/// The folder of an adapter: under the name that is shown, closed, with the
/// filters that the adapter has of its own.
pub open spec fn folder_of(adapter: AdapterFilters) -> FolderModel {
    FolderModel {
        label: adapter.fancy_name@,
        adapter: adapter.name@,
        entries: builtin_entries(adapter.filters@),
        is_open: false,
    }
}

/// Sorts the filters of an adapter: those that the adapter has of its own
/// make up its folder, and those that users have made are handed out as
/// entries for the folder of the filters of users.
pub fn fill_folder(adapter: &AdapterFilters) -> (r: (BucketPanelFolder, Vec<BucketPanelEntry>))
    ensures
        r.0@ == folder_of(*adapter),
        entry_models(r.1@) == custom_entries(adapter.filters@),
{
    let filters = &adapter.filters;
    let mut entries: Vec<BucketPanelEntry> = Vec::new();
    let mut custom: Vec<BucketPanelEntry> = Vec::new();
    let mut i: usize = 0;
    proof {
        assert(filters@.take(0) =~= Seq::<Filter>::empty());
        assert(entry_models(entries@) =~= Seq::<EntryModel>::empty());
        assert(entry_models(custom@) =~= Seq::<EntryModel>::empty());
    }
    while i < filters.len()
        invariant
            i <= filters.len(),
            entry_models(entries@) == builtin_entries(filters@.take(i as int)),
            entry_models(custom@) == custom_entries(filters@.take(i as int)),
        decreases filters.len() - i,
    {
        let filter = &filters[i];
        proof {
            assert(filters@.take(i + 1).drop_last() =~= filters@.take(i as int));
            assert(filters@.take(i + 1).last() == *filter);
        }
        let filter_instance = BucketPanelEntry {
            label: filter.identifier.name.clone(),
            adapter: filter.identifier.adapter.clone(),
            filter: filter.identifier.name.clone(),
            entry_type: match &filter.filter_type {
                FilterType::User => FilterType::User,
                FilterType::Builtin => FilterType::Builtin,
                FilterType::Bucket(id) => FilterType::Bucket(*id),
                FilterType::Tag => FilterType::Tag,
                FilterType::Other => FilterType::Other,
            },
        };
        let ghost before_entries = entries@;
        let ghost before_custom = custom@;
        match filter_instance.entry_type {
            FilterType::User => {
                custom.push(filter_instance);
                proof {
                    assert(entry_models(custom@) =~= entry_models(before_custom).push(
                        entry_of(*filter),
                    ));
                }
            },
            _ => {
                entries.push(filter_instance);
                proof {
                    assert(entry_models(entries@) =~= entry_models(before_entries).push(
                        entry_of(*filter),
                    ));
                }
            },
        }
        i += 1;
    }
    proof {
        assert(filters@.take(i as int) =~= filters@);
    }
    (
        BucketPanelFolder {
            label: adapter.fancy_name.clone(),
            adapter: adapter.name.clone(),
            entries,
            is_open: false,
        },
        custom,
    )
}

/// Folders in the order of their adapters with one more: in its place by the
/// name of its adapter, and in the place of the folder of that adapter where
/// there is one.
pub open spec fn placed(folders: Seq<FolderModel>, folder: FolderModel) -> Seq<FolderModel>
    decreases folders.len(),
{
    if folders.len() == 0 {
        seq![folder]
    } else if folders.last().adapter == folder.adapter {
        folders.drop_last().push(folder)
    } else if precedes(folders.last().adapter, folder.adapter) {
        folders.push(folder)
    } else {
        placed(folders.drop_last(), folder).push(folders.last())
    }
}

/// Puts a folder into the folders of the panel: in its place by the name of
/// its adapter, and in the place of the folder of that adapter where there
/// is one.
pub fn place_folder(folders: &mut Vec<BucketPanelFolder>, folder: BucketPanelFolder)
    ensures
        folder_models(final(folders)@) == placed(folder_models(old(folders)@), folder@),
{
    let ghost models = folder_models(folders@);
    let mut at: usize = folders.len();
    proof {
        assert(models.take(at as int) =~= models);
        assert(placed(models.take(at as int), folder@) + models.skip(at as int) =~= placed(
            models,
            folder@,
        ));
    }
    while at > 0 && !text_equals(folders[at - 1].adapter.as_str(), folder.adapter.as_str())
        && !text_precedes(folders[at - 1].adapter.as_str(), folder.adapter.as_str())
        invariant
            at <= folders@.len(),
            folders@ == old(folders)@,
            models == folder_models(folders@),
            placed(models, folder@) == placed(models.take(at as int), folder@) + models.skip(
                at as int,
            ),
        decreases at,
    {
        proof {
            let first = models.take(at as int);
            assert(first.drop_last() =~= models.take(at - 1));
            assert(first.last() == folders@[at - 1]@);
            assert(placed(first.drop_last(), folder@).push(first.last()) + models.skip(at as int)
                =~= placed(first.drop_last(), folder@) + models.skip(at - 1));
        }
        at -= 1;
    }
    if at > 0 && text_equals(folders[at - 1].adapter.as_str(), folder.adapter.as_str()) {
        proof {
            let first = models.take(at as int);
            assert(first.last() == folders@[at - 1]@);
            assert(first.drop_last().push(folder@) + models.skip(at as int) =~= models.update(
                at - 1,
                folder@,
            ));
        }
        folders.set(at - 1, folder);
        proof {
            assert(folder_models(folders@) =~= models.update(at - 1, folder@));
        }
    } else {
        proof {
            let first = models.take(at as int);
            if at > 0 {
                assert(first.last() == folders@[at - 1]@);
            }
            assert(placed(first, folder@) == first.push(folder@));
            assert(first.push(folder@) + models.skip(at as int) =~= models.insert(
                at as int,
                folder@,
            ));
        }
        folders.insert(at, folder);
        proof {
            assert(folder_models(folders@) =~= models.insert(at as int, folder@));
        }
    }
}

/// The folders of the adapters, each put in its place.
pub open spec fn adapter_folders(adapters: Seq<AdapterFilters>) -> Seq<FolderModel>
    decreases adapters.len(),
{
    if adapters.len() == 0 {
        Seq::empty()
    } else {
        placed(adapter_folders(adapters.drop_last()), folder_of(adapters.last()))
    }
}

/// The entries of the filters that users have made, of all adapters.
pub open spec fn all_custom_entries(adapters: Seq<AdapterFilters>) -> Seq<EntryModel>
    decreases adapters.len(),
{
    if adapters.len() == 0 {
        Seq::empty()
    } else {
        all_custom_entries(adapters.drop_last()) + custom_entries(adapters.last().filters@)
    }
}

/// The folder of the filters that users have made.
pub open spec fn custom_folder(entries: Seq<EntryModel>) -> FolderModel {
    FolderModel { label: "Filters"@, adapter: custom_filters(), entries, is_open: false }
}

/// The folders of the panel: one for each adapter, with the filters that the
/// adapter has of its own, and one for the filters that users have made, in
/// the order of the names of the adapters. Of two adapters with one name the
/// later has the folder.
pub open spec fn panel_folders(adapters: Seq<AdapterFilters>) -> Seq<FolderModel> {
    placed(adapter_folders(adapters), custom_folder(all_custom_entries(adapters)))
}

/// Makes the folders of the panel from the adapters and their filters.
pub fn update_bucket_panel_data(adapters: &Vec<AdapterFilters>) -> (bucket_panel: Vec<
    BucketPanelFolder,
>)
    ensures
        folder_models(bucket_panel@) == panel_folders(adapters@),
{
    let mut bucket_panel: Vec<BucketPanelFolder> = Vec::new();
    let mut users_folder = BucketPanelFolder {
        label: "Filters".to_string(),
        adapter: "_custom_filters".to_string(),
        is_open: false,
        entries: Vec::new(),
    };
    let mut i: usize = 0;
    proof {
        assert(adapters@.take(0) =~= Seq::<AdapterFilters>::empty());
        assert(folder_models(bucket_panel@) =~= Seq::<FolderModel>::empty());
        assert(entry_models(users_folder.entries@) =~= Seq::<EntryModel>::empty());
    }
    while i < adapters.len()
        invariant
            i <= adapters.len(),
            folder_models(bucket_panel@) == adapter_folders(adapters@.take(i as int)),
            entry_models(users_folder.entries@) == all_custom_entries(
                adapters@.take(i as int),
            ),
            users_folder.label@ == "Filters"@,
            users_folder.adapter@ == custom_filters(),
            !users_folder.is_open,
        decreases adapters.len() - i,
    {
        proof {
            assert(adapters@.take(i + 1).drop_last() =~= adapters@.take(i as int));
            assert(adapters@.take(i + 1).last() == adapters@[i as int]);
        }
        let (folder, custom) = fill_folder(&adapters[i]);
        let mut custom = custom;
        let ghost first = users_folder.entries@;
        let ghost second = custom@;
        users_folder.entries.append(&mut custom);
        proof {
            assert(entry_models(first + second) =~= entry_models(first) + entry_models(second));
        }
        place_folder(&mut bucket_panel, folder);
        i += 1;
    }
    proof {
        assert(adapters@.take(i as int) =~= adapters@);
    }
    place_folder(&mut bucket_panel, users_folder);
    bucket_panel
}

} // verus!

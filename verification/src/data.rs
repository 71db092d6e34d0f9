//! The dataset registry: which datasets there are, and the rows of those
//! that were loaded.
//!
//! The registry never touches a file. It is handed the bytes of the registry
//! file, the names found in the data directory and the bytes of a dataset's
//! file, and says what follows from them.

use vstd::prelude::*;
use vstd::hash_map::StringHashMap;
use vstd::string::*;
use crate::error::{QueryError, QueryErrorView};
use crate::text::{find_text, same_text, table, texts};

verus! {

/// The error type of the `csv` crate.
#[verifier::external_type_specification]
#[verifier::external_body]
pub struct ExCsvError(csv::Error);

/// The header row that the `csv` crate reads from `data` with its default
/// settings; `None` where it reports an error.
pub uninterp spec fn csv_header(data: Seq<u8>) -> Option<Seq<Seq<char>>>;

/// The records after the header row that the `csv` crate reads from `data`
/// with its default settings; `None` where it reports an error.
pub uninterp spec fn csv_records(data: Seq<u8>) -> Option<Seq<Seq<Seq<char>>>>;

/// `csv::Reader::from_reader` on the bytes, then `Reader::headers`: the
/// fields of the first record, as strings. Nothing is claimed of what they
/// are but that the bytes alone decide it.
#[verifier::external_body]
fn read_header(data: &[u8]) -> (r: Result<Vec<String>, csv::Error>)
    ensures
        match r {
            Ok(h) => csv_header(data@) == Some(texts(h@)),
            Err(_) => csv_header(data@) is None,
        },
{
    let mut reader = csv::Reader::from_reader(data);
    let header = reader.headers()?;
    Ok(header.iter().map(|s| s.to_string()).collect())
}

/// `csv::Reader::from_reader` on the bytes, then `Reader::records` to the
/// end or to the first error: the records after the header, each as its
/// fields. Nothing is claimed of what they are but that the bytes alone
/// decide it.
#[verifier::external_body]
fn read_records(data: &[u8]) -> (r: Result<Vec<Vec<String>>, csv::Error>)
    ensures
        match r {
            Ok(rows) => csv_records(data@) == Some(table(rows@)),
            Err(_) => csv_records(data@) is None,
        },
{
    let mut reader = csv::Reader::from_reader(data);
    let mut rows: Vec<Vec<String>> = Vec::new();
    for record in reader.records() {
        rows.push(record?.iter().map(|s| s.to_string()).collect());
    }
    Ok(rows)
}

/// `to_string` on a `csv::Error`: the message that its `Display` writes.
/// Nothing is claimed of the message.
#[verifier::external_body]
fn csv_message(e: &csv::Error) -> (message: String) {
    e.to_string()
}

/// The name of the registry file in the data directory.
pub const CONFIG_FILE_NAME: &'static str = "config.csv";

/// Whether the extension `.csv` stands in `s` at position `i`.
pub open spec fn ext_at(s: Seq<char>, i: int) -> bool {
    &&& 0 <= i
    &&& i + 4 <= s.len()
    &&& s[i] == '.'
    &&& s[i + 1] == 'c'
    &&& s[i + 2] == 's'
    &&& s[i + 3] == 'v'
}

/// Whether the name `file` ends in the extension `.csv`.
pub open spec fn has_ext(file: Seq<char>) -> bool {
    file.len() >= 4 && ext_at(file, file.len() - 4)
}

/// The dataset that a file of the data directory holds: the file's name
/// without the extension `.csv` at its end; the whole name where it does not
/// end so.
pub open spec fn dataset_of(file: Seq<char>) -> Seq<char> {
    if has_ext(file) {
        file.take(file.len() - 4)
    } else {
        file
    }
}

/// The dataset of a file that ends in `.csv`, with `.csv` after it, is the
/// file's name again: the path of such a dataset is that of its file.
pub proof fn lemma_dataset_names_its_file(file: Seq<char>)
    requires
        has_ext(file),
    ensures
        dataset_of(file) + ".csv"@ == file,
{
    reveal_strlit(".csv");
    assert(dataset_of(file) + ".csv"@ =~= file);
}

/// The datasets that a listing of the data directory gives: one for each
/// name but that of the registry file, in the listing's order.
pub open spec fn datasets_of(files: Seq<Seq<char>>) -> Seq<Seq<char>>
    decreases files.len(),
{
    if files.len() == 0 {
        Seq::empty()
    } else if files.last() == CONFIG_FILE_NAME@ {
        datasets_of(files.drop_last())
    } else {
        datasets_of(files.drop_last()).push(dataset_of(files.last()))
    }
}

/// The text of the registry file for `names`: the header line `dataset`,
/// then one line for each name.
pub open spec fn registry_text(names: Seq<Seq<char>>) -> Seq<char>
    decreases names.len(),
{
    if names.len() == 0 {
        "dataset\n"@
    } else {
        registry_text(names.drop_last()) + names.last() + "\n"@
    }
}

/// The names of a listing; empty for an entry that has none.
pub open spec fn listed(listing: Seq<Option<String>>) -> Seq<Seq<char>> {
    listing.map_values(
        |e: Option<String>|
            match e {
                Some(s) => s@,
                None => Seq::empty(),
            },
    )
}

/// The first field of each record, where every record has one.
pub open spec fn first_fields(records: Seq<Seq<Seq<char>>>) -> Option<Seq<Seq<char>>> {
    if forall|i: int| 0 <= i < records.len() ==> (#[trigger] records[i]).len() > 0 {
        Some(records.map_values(|r: Seq<Seq<char>>| r[0]))
    } else {
        None
    }
}

/// Reading gives back what was written, as far as the library goes: where
/// the records of a registry are one for each name, with the name as the
/// only field, their first fields are those names, in the same order.
pub proof fn lemma_names_read_back(names: Seq<Seq<char>>)
    ensures
        first_fields(names.map_values(|n: Seq<char>| seq![n])) == Some(names),
{
    let records = names.map_values(|n: Seq<char>| seq![n]);
    assert(records.map_values(|r: Seq<Seq<char>>| r[0]) =~= names);
}

/// The datasets that the bytes of a registry file name: the first field of
/// each record after the header line. `None` where the bytes are no valid
/// registry.
pub open spec fn registry_names(data: Seq<u8>) -> Option<Seq<Seq<char>>> {
    match csv_records(data) {
        Some(records) => first_fields(records),
        None => None,
    }
}

/// The path of the file that holds `dataset`.
pub fn dataset_path(dataset: &str) -> (path: String)
    ensures
        path@ == "./data/"@ + dataset@ + ".csv"@,
{
    let mut path = String::from_str("./data/");
    path.append(dataset);
    path.append(".csv");
    path
}

/// The dataset that the file `file` of the data directory holds.
pub fn dataset_name(file: &str) -> (name: String)
    ensures
        name@ == dataset_of(file@),
{
    let n: usize = file.unicode_len();
    if n >= 4 && file.get_char(n - 4) == '.' && file.get_char(n - 3) == 'c' && file.get_char(
        n - 2,
    ) == 's' && file.get_char(n - 1) == 'v' {
        file.substring_char(0, n - 4).to_owned()
    } else {
        file.to_owned()
    }
}

/// The registry: the datasets that are known, and the rows of those that
/// were loaded. A dataset's rows, once loaded, stay. The cache maps names to
/// rows, and holds only names of known datasets.
pub struct DataAccessor {
    ready: Vec<String>,
    loaded: StringHashMap<Vec<Vec<String>>>,
}

impl DataAccessor {
    /// Every dataset whose rows are in the cache is a known one.
    #[verifier::type_invariant]
    closed spec fn inv(&self) -> bool {
        forall|name: Seq<char>| #[trigger]
            self.loaded@.contains_key(name) ==> texts(self.ready@).contains(name)
    }

    /// The names of the known datasets.
    pub closed spec fn known(&self) -> Seq<Seq<char>> {
        texts(self.ready@)
    }

    /// Whether `name` is one of the known datasets.
    pub open spec fn knows(&self, name: Seq<char>) -> bool {
        self.known().contains(name)
    }

    /// The names of the known datasets.
    pub fn ready(&self) -> (names: &Vec<String>)
        ensures
            texts(names@) == self.known(),
    {
        &self.ready
    }

    /// The rows of `name`, where they were loaded.
    pub closed spec fn cached(&self, name: Seq<char>) -> Option<Seq<Seq<Seq<char>>>> {
        if self.loaded@.contains_key(name) {
            Some(table(self.loaded@[name]@))
        } else {
            None
        }
    }

    /// The header of a dataset, from the bytes of its file: the fields of the
    /// first row. Nothing is loaded.
    pub fn get_headers(data: &[u8]) -> (r: Result<Vec<String>, QueryError>)
        ensures
            match csv_header(data@) {
                Some(h) => r is Ok && texts(r->Ok_0@) == h,
                None => r is Err && r->Err_0@ is BadCSV,
            },
    {
        match read_header(data) {
            Ok(h) => Ok(h),
            Err(e) => Err(QueryError::BadCSV(csv_message(&e))),
        }
    }

    /// The datasets that the bytes of a registry file name. Fails with
    /// `BadCSV` where the bytes are no valid registry.
    pub fn read_config(data: &[u8]) -> (r: Result<Vec<String>, QueryError>)
        ensures
            match registry_names(data@) {
                Some(names) => r is Ok && texts(r->Ok_0@) == names,
                None => r is Err && r->Err_0@ is BadCSV,
            },
    {
        match read_records(data) {
            Ok(records) => DataAccessor::names_from_records(&records),
            Err(e) => Err(QueryError::BadCSV(csv_message(&e))),
        }
    }

    /// The datasets that the records of a registry file name: the first
    /// field of each. A record without a field is a `BadCSV`.
    pub fn names_from_records(records: &Vec<Vec<String>>) -> (r: Result<Vec<String>, QueryError>)
        ensures
            match first_fields(table(records@)) {
                Some(names) => r is Ok && texts(r->Ok_0@) == names,
                None => r is Err && r->Err_0@ is BadCSV,
            },
    {
        let ghost recs = table(records@);
        let mut names: Vec<String> = Vec::new();
        let mut i: usize = 0;
        while i < records.len()
            invariant
                i <= records@.len(),
                recs == table(records@),
                names@.len() == i,
                forall|k: int| 0 <= k < i ==> (#[trigger] recs[k]).len() > 0,
                forall|k: int| 0 <= k < i ==> (#[trigger] names@[k])@ == recs[k][0],
            decreases records@.len() - i,
        {
            if records[i].len() == 0 {
                assert(recs[i as int].len() == 0);
                return Err(QueryError::BadCSV(String::from_str("a record without fields")));
            }
            names.push(records[i][0].clone());
            i = i + 1;
        }
        assert(texts(names@) =~= recs.map_values(|r: Seq<Seq<char>>| r[0]));
        Ok(names)
    }

    /// The registry made anew from a listing of the data directory: the
    /// datasets, and the text of the registry file to write. An entry of the
    /// listing is `None` where the file's name is no text; with such an entry
    /// this fails with `FileError`.
    pub fn recreate_config(listing: &Vec<Option<String>>) -> (r: Result<
        (Vec<String>, String),
        QueryError,
    >)
        ensures
            (forall|i: int| 0 <= i < listing@.len() ==> listing@[i] is Some) ==> {
                &&& r is Ok
                &&& texts(r->Ok_0.0@) == datasets_of(listed(listing@))
                &&& r->Ok_0.1@ == registry_text(datasets_of(listed(listing@)))
            },
            (exists|i: int| 0 <= i < listing@.len() && listing@[i] is None) ==> r is Err
                && r->Err_0@ is FileError,
    {
        let ghost files = listed(listing@);
        let mut datasets: Vec<String> = Vec::new();
        let mut text = String::from_str("dataset\n");
        let mut i: usize = 0;
        assert(files.take(0) =~= Seq::<Seq<char>>::empty());
        while i < listing.len()
            invariant
                i <= listing@.len(),
                files == listed(listing@),
                forall|k: int| 0 <= k < i ==> listing@[k] is Some,
                texts(datasets@) == datasets_of(files.take(i as int)),
                text@ == registry_text(texts(datasets@)),
            decreases listing@.len() - i,
        {
            proof {
                assert(files.take(i + 1).drop_last() =~= files.take(i as int));
                assert(files.take(i + 1).last() == files[i as int]);
            }
            match &listing[i] {
                Some(name) => {
                    if !same_text(name.as_str(), CONFIG_FILE_NAME) {
                        let cleaned = dataset_name(name.as_str());
                        let ghost before = texts(datasets@);
                        text.append(cleaned.as_str());
                        text.append("\n");
                        datasets.push(cleaned);
                        proof {
                            assert(texts(datasets@) =~= before.push(cleaned@));
                            assert(texts(datasets@).drop_last() =~= before);
                        }
                    }
                },
                None => {
                    return Err(
                        QueryError::FileError(
                            String::from_str("a file name in the data directory is no text"),
                        ),
                    );
                },
            }
            i = i + 1;
        }
        assert(files.take(i as int) =~= files);
        Ok((datasets, text))
    }

    /// Opens the registry. `config` holds the bytes of the registry file, if
    /// it could be read. Where they name the datasets, those are the known
    /// ones and there is nothing to write. Else the registry is made anew
    /// from `listing`, and its text comes back to be written.
    pub fn new(config: Option<&[u8]>, listing: &Vec<Option<String>>) -> (r: Result<
        (DataAccessor, Option<String>),
        QueryError,
    >)
        ensures
            config is Some && registry_names(config->0@) is Some ==> {
                &&& r is Ok
                &&& r->Ok_0.0.known() == registry_names(config->0@)->0
                &&& r->Ok_0.1 is None
            },
            !(config is Some && registry_names(config->0@) is Some) && (forall|i: int|
                0 <= i < listing@.len() ==> listing@[i] is Some) ==> {
                &&& r is Ok
                &&& r->Ok_0.0.known() == datasets_of(listed(listing@))
                &&& r->Ok_0.1 is Some
                &&& r->Ok_0.1->0@ == registry_text(datasets_of(listed(listing@)))
            },
            !(config is Some && registry_names(config->0@) is Some) && (exists|i: int|
                0 <= i < listing@.len() && listing@[i] is None) ==> r is Err && r->Err_0@
                is FileError,
            r is Ok ==> forall|name: Seq<char>| r->Ok_0.0.cached(name) is None,
    {
        let named = match config {
            Some(data) => match DataAccessor::read_config(data) {
                Ok(names) => Some(names),
                Err(_) => None,
            },
            None => None,
        };
        match named {
            Some(ready) => {
                let accessor = DataAccessor { ready, loaded: StringHashMap::new() };
                Ok((accessor, None))
            },
            None => {
                let (ready, text) = DataAccessor::recreate_config(listing)?;
                let accessor = DataAccessor { ready, loaded: StringHashMap::new() };
                Ok((accessor, Some(text)))
            },
        }
    }

    /// Whether `dataset` is among the known ones.
    pub fn is_ready(&self, dataset: &str) -> (b: bool)
        ensures
            b == self.knows(dataset@),
    {
        let found = find_text(&self.ready, dataset);
        proof {
            if found is Some {
                assert(texts(self.ready@)[found->0 as int] == dataset@);
            }
        }
        found.is_some()
    }

    /// Whether the rows of `dataset` have to be loaded before they can be
    /// had: not where they are in the cache; and a dataset that is not known
    /// is an `UnknownDataset`, so that nobody goes and reads a file for it.
    /// Only known datasets are ever in the cache.
    pub fn needs_load(&self, dataset: &str) -> (r: Result<bool, QueryError>)
        ensures
            !self.knows(dataset@) ==> r is Err && r->Err_0@ == QueryErrorView::UnknownDataset(
                dataset@,
            ),
            self.knows(dataset@) ==> r == Ok::<bool, QueryError>(self.cached(dataset@) is None),
            self.cached(dataset@) is Some ==> self.knows(dataset@),
    {
        proof {
            use_type_invariant(self);
        }
        if self.loaded.contains_key(dataset) {
            Ok(false)
        } else if self.is_ready(dataset) {
            Ok(true)
        } else {
            Err(QueryError::UnknownDataset(dataset.to_owned()))
        }
    }

    /// Puts the rows of `dataset` into the cache, from the bytes of its file.
    /// A dataset that is not known is an `UnknownDataset`, whatever the bytes;
    /// bytes that are no valid rows are a `BadCSV`. On an error the registry
    /// is as it was. The rows of every other dataset stay as they are.
    pub fn load(&mut self, dataset: String, data: &[u8]) -> (r: Result<(), QueryError>)
        ensures
            final(self).known() == old(self).known(),
            forall|other: Seq<char>|
                other != dataset@ ==> final(self).cached(other) == old(self).cached(other),
            !old(self).knows(dataset@) ==> r is Err && r->Err_0@ == QueryErrorView::UnknownDataset(
                dataset@,
            ) && final(self).cached(dataset@) == old(self).cached(dataset@),
            old(self).knows(dataset@) && csv_records(data@) is None ==> r is Err && r->Err_0@
                is BadCSV && final(self).cached(dataset@) == old(self).cached(dataset@),
            old(self).knows(dataset@) && csv_records(data@) is Some ==> {
                &&& r is Ok
                &&& final(self).cached(dataset@) == csv_records(data@)
            },
    {
        if !self.is_ready(dataset.as_str()) {
            return Err(QueryError::UnknownDataset(dataset));
        }
        match read_records(data) {
            Ok(rows) => self.store(dataset, rows),
            Err(e) => Err(QueryError::BadCSV(csv_message(&e))),
        }
    }

    /// Puts `rows` into the cache as the rows of `dataset`, in place of those
    /// that the cache held for it, if any. A dataset that is not known is an
    /// `UnknownDataset`, and the registry is as it was. The rows of every
    /// other dataset stay as they are.
    pub fn store(&mut self, dataset: String, rows: Vec<Vec<String>>) -> (r: Result<(), QueryError>)
        ensures
            final(self).known() == old(self).known(),
            forall|other: Seq<char>|
                other != dataset@ ==> final(self).cached(other) == old(self).cached(other),
            !old(self).knows(dataset@) ==> r is Err && r->Err_0@ == QueryErrorView::UnknownDataset(
                dataset@,
            ) && final(self).cached(dataset@) == old(self).cached(dataset@),
            old(self).knows(dataset@) ==> r is Ok && final(self).cached(dataset@) == Some(
                table(rows@),
            ),
    {
        proof {
            use_type_invariant(&*self);
        }
        if !self.is_ready(dataset.as_str()) {
            return Err(QueryError::UnknownDataset(dataset));
        }
        // The map is taken out while it changes and put back whole.
        let mut cache: StringHashMap<Vec<Vec<String>>> = StringHashMap::new();
        core::mem::swap(&mut self.loaded, &mut cache);
        cache.insert(dataset, rows);
        self.loaded = cache;
        Ok(())
    }

    /// The rows of `dataset`, from the cache. A dataset that is not known is
    /// an `UnknownDataset`; a known one whose rows were not loaded is
    /// `NotLoaded`. Only known datasets are ever in the cache.
    pub fn get(&self, dataset: &str) -> (r: Result<&Vec<Vec<String>>, QueryError>)
        ensures
            !self.knows(dataset@) ==> r is Err && r->Err_0@ == QueryErrorView::UnknownDataset(
                dataset@,
            ),
            self.knows(dataset@) ==> match self.cached(dataset@) {
                Some(rows) => r is Ok && table(r->Ok_0@) == rows,
                None => r is Err && r->Err_0@ == QueryErrorView::NotLoaded(dataset@),
            },
            self.cached(dataset@) is Some ==> self.knows(dataset@),
    {
        proof {
            use_type_invariant(self);
        }
        match self.loaded.get(dataset) {
            Some(rows) => Ok(rows),
            None => {
                if self.is_ready(dataset) {
                    Err(QueryError::NotLoaded(dataset.to_owned()))
                } else {
                    Err(QueryError::UnknownDataset(dataset.to_owned()))
                }
            },
        }
    }
}

} // verus!

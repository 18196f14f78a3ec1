//! Asset files held in memory, under the same rules as on disk.

use vstd::prelude::*;
use crate::row::same_text;
use crate::storage::{
    field_verdict, is_generated_name, upload_field_name, FieldVerdict, MediaType, Storage, StorageError, StorageFault,
};

verus! {

/// One part of a multipart upload: its name, its declared content type and
/// its content.
#[derive(Debug)]
pub struct UploadField {
    pub name: Option<String>,
    pub media: Option<MediaType>,
    pub data: Vec<u8>,
}

/// What an [`UploadField`] holds, as a mathematical value.
pub struct FieldModel {
    pub name: Option<Seq<char>>,
    pub media: Option<(Seq<char>, Seq<char>)>,
    pub data: Seq<u8>,
}

impl View for UploadField {
    type V = FieldModel;

    open spec fn view(&self) -> FieldModel {
        FieldModel {
            name: match &self.name {
                Some(n) => Some(n@),
                None => None,
            },
            media: match &self.media {
                Some(m) => Some(m@),
                None => None,
            },
            data: self.data@,
        }
    }
}

/// The position of the first part at `i` or later that is named for the
/// image upload.
pub open spec fn upload_from(fields: Seq<FieldModel>, i: int) -> Option<int>
    decreases fields.len() - i,
{
    if 0 <= i < fields.len() {
        if fields[i].name == Some(upload_field_name()) {
            Some(i)
        } else {
            upload_from(fields, i + 1)
        }
    } else {
        None
    }
}

/// The part whose content is stored, or why none is: the first part named
/// for the image upload must declare an accepted image type.
pub open spec fn chosen_upload(fields: Seq<FieldModel>) -> Result<int, StorageFault> {
    match upload_from(fields, 0) {
        None => Err(StorageFault::MultipartFieldMissing(upload_field_name())),
        Some(k) => if field_verdict(fields[k].name, fields[k].media) == FieldVerdict::Accept {
            Ok(k)
        } else {
            Err(StorageFault::InvalidMimeType)
        },
    }
}

/// The position of the first file at `i` or later with this name.
pub open spec fn file_from(files: Seq<(Seq<char>, Seq<u8>)>, name: Seq<char>, i: int) -> Option<int>
    decreases files.len() - i,
{
    if 0 <= i < files.len() {
        if files[i].0 == name {
            Some(i)
        } else {
            file_from(files, name, i + 1)
        }
    } else {
        None
    }
}

/// Whether a file of this name is stored.
pub open spec fn has_file(files: Seq<(Seq<char>, Seq<u8>)>, name: Seq<char>) -> bool {
    exists|i: int| 0 <= i < files.len() && #[trigger] files[i].0 == name
}

/// No two files share a name.
pub open spec fn distinct_names(files: Seq<(Seq<char>, Seq<u8>)>) -> bool {
    forall|i: int, k: int| 0 <= i < k < files.len() ==> #[trigger] files[i].0 != #[trigger] files[k].0
}

/// The files after writing `data` to the file `name`: a file of that name is
/// replaced, as creating a file truncates it; otherwise one is added.
pub open spec fn put_file(files: Seq<(Seq<char>, Seq<u8>)>, name: Seq<char>, data: Seq<u8>) -> Seq<
    (Seq<char>, Seq<u8>),
> {
    match file_from(files, name, 0) {
        Some(k) => files.update(k, (name, data)),
        None => files.push((name, data)),
    }
}

proof fn lemma_file_from(files: Seq<(Seq<char>, Seq<u8>)>, name: Seq<char>, i: int)
    requires
        0 <= i <= files.len(),
        forall|j: int| 0 <= j < i ==> #[trigger] files[j].0 != name,
    ensures
        match file_from(files, name, i) {
            Some(k) => i <= k < files.len() && files[k].0 == name && forall|j: int|
                0 <= j < k ==> #[trigger] files[j].0 != name,
            None => !has_file(files, name),
        },
    decreases files.len() - i,
{
    if i < files.len() && files[i].0 != name {
        lemma_file_from(files, name, i + 1);
    }
}

struct StoredFile {
    name: String,
    data: Vec<u8>,
}

/// Files held in memory, each under a distinct name.
pub struct MemoryStorage {
    rules: Storage,
    files: Vec<StoredFile>,
}

/// The models of a sequence of upload parts.
pub open spec fn field_models(fields: Seq<UploadField>) -> Seq<FieldModel> {
    fields.map_values(|f: UploadField| f@)
}

/// Finds the part of a multipart body whose content is to be stored: the
/// first part named for the image upload, provided that it declares an
/// accepted image type. Parts after it are not looked at.
pub fn select_upload(storage: &Storage, fields: &Vec<UploadField>) -> (r: Result<usize, StorageError>)
    ensures
        match chosen_upload(field_models(fields@)) {
            Ok(k) => r == Ok::<usize, StorageError>(k as usize) && k < fields@.len(),
            Err(f) => match r {
                Err(e) => e@ == f,
                Ok(_) => false,
            },
        },
        match r {
            Ok(k) => k < fields@.len() && chosen_upload(field_models(fields@)) == Ok::<
                int,
                StorageFault,
            >(k as int),
            Err(_) => true,
        },
{
    let ghost models = field_models(fields@);
    let mut i: usize = 0;
    while i < fields.len()
        invariant
            models == field_models(fields@),
            i <= fields@.len(),
            upload_from(models, 0) == upload_from(models, i as int),
        decreases fields@.len() - i,
    {
        let f = &fields[i];
        let name: Option<&str> = match &f.name {
            Some(n) => Some(n.as_str()),
            None => None,
        };
        let media: Option<&MediaType> = match &f.media {
            Some(m) => Some(m),
            None => None,
        };
        assert(models[i as int] == f@);
        match storage.inspect_field(name, media) {
            FieldVerdict::Skip => {},
            FieldVerdict::Accept => {
                return Ok(i);
            },
            FieldVerdict::Reject => {
                return Err(StorageError::InvalidMimeType);
            },
        }
        i = i + 1;
    }
    Err(storage.missing_field())
}

impl View for MemoryStorage {
    type V = Seq<(Seq<char>, Seq<u8>)>;

    closed spec fn view(&self) -> Seq<(Seq<char>, Seq<u8>)> {
        self.files@.map_values(|f: StoredFile| (f.name@, f.data@))
    }
}

impl MemoryStorage {
    /// No files.
    pub fn new() -> (r: MemoryStorage)
        ensures
            r@.len() == 0,
            distinct_names(r@),
    {
        let r = MemoryStorage { rules: Storage::new(), files: Vec::new() };
        assert(r@.len() == 0);
        r
    }

    /// Whether a file of this name is stored.
    pub fn contains(&self, name: &str) -> (r: bool)
        ensures
            r == has_file(self@, name@),
    {
        self.position(name).is_some()
    }

    fn position(&self, name: &str) -> (r: Option<usize>)
        ensures
            r == match file_from(self@, name@, 0) {
                Some(k) => Some(k as usize),
                None => None::<usize>,
            },
            match r {
                Some(k) => k < self@.len() && self@[k as int].0 == name@,
                None => !has_file(self@, name@),
            },
    {
        proof {
            lemma_file_from(self@, name@, 0);
        }
        let mut i: usize = 0;
        while i < self.files.len()
            invariant
                i <= self@.len(),
                file_from(self@, name@, 0) == file_from(self@, name@, i as int),
            decreases self@.len() - i,
        {
            if same_text(self.files[i].name.as_str(), name) {
                return Some(i);
            }
            i = i + 1;
        }
        None
    }

    /// Writes `data` to the file `name`, replacing a file of that name.
    fn write_file(&mut self, name: &String, data: &Vec<u8>)
        requires
            distinct_names(old(self)@),
        ensures
            distinct_names(final(self)@),
            final(self)@ == put_file(old(self)@, name@, data@),
            has_file(final(self)@, name@),
    {
        let ghost before = self@;
        let content = data.clone();
        assert(content@ =~= data@);
        let stored = StoredFile { name: name.clone(), data: content };
        match self.position(name.as_str()) {
            Some(k) => {
                proof {
                    lemma_file_from(before, name@, 0);
                }
                assert(file_from(before, name@, 0) == Some(k as int));
                self.files.set(k, stored);
                assert(self@ =~= before.update(k as int, (name@, data@)));
                assert(self@[k as int].0 == name@);
                proof {
                    assert forall|i: int, m: int| 0 <= i < m < self@.len() implies #[trigger] self@[i].0 != #[trigger] self@[m].0 by {
                        if i != k && m != k {
                            assert(before[i].0 != before[m].0);
                        } else if i == k {
                            assert(before[k as int].0 != before[m].0);
                        } else {
                            assert(before[i].0 != before[k as int].0);
                        }
                    }
                }
            },
            None => {
                self.files.push(stored);
                assert(self@ =~= before.push((name@, data@)));
                assert(self@[before.len() as int].0 == name@);
                proof {
                    assert forall|i: int, m: int| 0 <= i < m < self@.len() implies #[trigger] self@[i].0 != #[trigger] self@[m].0 by {
                        if m < before.len() {
                            assert(before[i].0 != before[m].0);
                        } else {
                            assert(self@[i] == before[i]);
                        }
                    }
                }
            },
        }
    }

    /// Stores the content of the chosen part of a multipart body under
    /// `filename` and returns that name. Where no part is chosen, fails with
    /// the reason and writes no file.
    pub fn save_image_as(&mut self, fields: &Vec<UploadField>, filename: &String) -> (r: Result<
        String,
        StorageError,
    >)
        requires
            distinct_names(old(self)@),
        ensures
            distinct_names(final(self)@),
            match chosen_upload(field_models(fields@)) {
                Ok(k) => match r {
                    Ok(n) => n@ == filename@ && has_file(final(self)@, filename@) && final(self)@ == put_file(
                        old(self)@,
                        filename@,
                        fields@[k]@.data,
                    ),
                    Err(_) => false,
                },
                Err(f) => match r {
                    Err(e) => e@ == f && final(self)@ == old(self)@,
                    Ok(_) => false,
                },
            },
    {
        match select_upload(&self.rules, fields) {
            Ok(k) => {
                self.write_file(filename, &fields[k].data);
                Ok(filename.clone())
            },
            Err(e) => Err(e),
        }
    }

    /// Stores the content of the chosen part of a multipart body under a
    /// freshly generated name, and returns that name. Where no part is
    /// chosen, fails with the reason and writes no file.
    pub fn save_image(&mut self, fields: &Vec<UploadField>) -> (r: Result<String, StorageError>)
        requires
            distinct_names(old(self)@),
        ensures
            distinct_names(final(self)@),
            match chosen_upload(field_models(fields@)) {
                Ok(k) => match r {
                    Ok(n) => is_generated_name(n@) && final(self)@ == put_file(
                        old(self)@,
                        n@,
                        fields@[k]@.data,
                    ),
                    Err(_) => false,
                },
                Err(f) => match r {
                    Err(e) => e@ == f && final(self)@ == old(self)@,
                    Ok(_) => false,
                },
            },
    {
        let filename = self.rules.new_filename();
        self.save_image_as(fields, &filename)
    }

    /// Removes the file `filename`. Fails, changing nothing, where there is
    /// no such file.
    pub fn delete_image(&mut self, filename: &str) -> (r: Result<(), StorageError>)
        requires
            distinct_names(old(self)@),
        ensures
            distinct_names(final(self)@),
            !has_file(final(self)@, filename@),
            has_file(old(self)@, filename@) == file_from(old(self)@, filename@, 0) is Some,
            match file_from(old(self)@, filename@, 0) {
                None => r matches Err(StorageError::Io(_)) && final(self)@ == old(self)@,
                Some(k) => r is Ok && final(self)@ == old(self)@.remove(k),
            },
    {
        let ghost before = self@;
        proof {
            lemma_file_from(before, filename@, 0);
        }
        match self.position(filename) {
            None => Err(StorageError::Io("no such file".to_owned())),
            Some(k) => {
                let _removed = self.files.remove(k);
                assert(self@ =~= before.remove(k as int));
                proof {
                    assert forall|i: int, m: int| 0 <= i < m < self@.len() implies #[trigger] self@[i].0 != #[trigger] self@[m].0 by {
                        let oi = if i < k { i } else { i + 1 };
                        let om = if m < k { m } else { m + 1 };
                        assert(self@[i] == before[oi]);
                        assert(self@[m] == before[om]);
                    }
                    assert forall|i: int| 0 <= i < self@.len() implies #[trigger] self@[i].0 != filename@ by {
                        let oi = if i < k { i } else { i + 1 };
                        assert(self@[i] == before[oi]);
                        if oi < k {
                            assert(before[oi].0 != before[k as int].0);
                        } else {
                            assert(before[k as int].0 != before[oi].0);
                        }
                    }
                }
                Ok(())
            },
        }
    }
}

} // verus!

//! Where the application keeps its files, and the preference for an output device.

use crate::paths;
use crate::text;
use vstd::prelude::*;

verus! {

pub const OUTPUT_DEVICE_FILE: &'static str = "output_device.txt";

pub const DATABASE_FILE: &'static str = "library.sqlite3";

pub const HISTORY_FILE: &'static str = "history.txt";

pub const LANGUAGE_FILE: &'static str = "language.txt";

#[derive(Debug, PartialEq, Eq)]
pub struct AppPaths {
    pub config_dir: String,
    pub cache_dir: String,
    pub database_path: String,
}

impl Clone for AppPaths {
    fn clone(&self) -> (r: Self)
        ensures
            r == *self,
    {
        AppPaths {
            config_dir: self.config_dir.clone(),
            cache_dir: self.cache_dir.clone(),
            database_path: self.database_path.clone(),
        }
    }
}

/// `path` names the file in the folder, as the platform writes it.
pub open spec fn in_folder(folder: Seq<char>, name: Seq<char>, path: Seq<char>) -> bool {
    &&& !paths::marked(folder) || paths::on_share(folder) ==> paths::joined(folder, name, path)
    &&& text::ends_with_spec(path, name)
}

proof fn lemma_file_names()
    ensures
        paths::plain_name(OUTPUT_DEVICE_FILE@),
        paths::plain_name(DATABASE_FILE@),
        paths::plain_name(HISTORY_FILE@),
        paths::plain_name(LANGUAGE_FILE@),
{
    reveal_strlit("output_device.txt");
    reveal_strlit("library.sqlite3");
    reveal_strlit("history.txt");
    reveal_strlit("language.txt");
    reveal_strlit(".");
    reveal_strlit("..");
    paths::lemma_name_without_slash(OUTPUT_DEVICE_FILE@);
    paths::lemma_name_without_slash(DATABASE_FILE@);
    paths::lemma_name_without_slash(HISTORY_FILE@);
    paths::lemma_name_without_slash(LANGUAGE_FILE@);
}

impl AppPaths {
    /// The paths in the application's own folders.
    pub fn from_folders(config_dir: String, cache_dir: String) -> (r: Self)
        ensures
            r.config_dir == config_dir,
            r.cache_dir == cache_dir,
            in_folder(cache_dir@, DATABASE_FILE@, r.database_path@),
    {
        proof {
            lemma_file_names();
        }
        let database_path = paths::path_join(cache_dir.as_str(), DATABASE_FILE);
        AppPaths { config_dir, cache_dir, database_path }
    }

    pub fn database_path(&self) -> (r: &str)
        ensures
            r@ == self.database_path@,
    {
        self.database_path.as_str()
    }

    pub fn output_device_preference_path(&self) -> (r: String)
        ensures
            in_folder(self.config_dir@, OUTPUT_DEVICE_FILE@, r@),
    {
        proof {
            lemma_file_names();
        }
        paths::path_join(self.config_dir.as_str(), OUTPUT_DEVICE_FILE)
    }

    pub fn history_path(&self) -> (r: String)
        ensures
            in_folder(self.config_dir@, HISTORY_FILE@, r@),
    {
        proof {
            lemma_file_names();
        }
        paths::path_join(self.config_dir.as_str(), HISTORY_FILE)
    }

    pub fn language_path(&self) -> (r: String)
        ensures
            in_folder(self.config_dir@, LANGUAGE_FILE@, r@),
    {
        proof {
            lemma_file_names();
        }
        paths::path_join(self.config_dir.as_str(), LANGUAGE_FILE)
    }
}

// ---------------------------------------------------------------- the preference

/// A text that is not blank, trimmed.
pub open spec fn preference_spec(value: Option<Seq<char>>) -> Option<Seq<char>> {
    match value {
        Some(value) => if text::trim_spec(value).len() > 0 {
            Some(text::trim_spec(value))
        } else {
            None
        },
        None => None,
    }
}

pub open spec fn str_view(value: Option<&str>) -> Option<Seq<char>> {
    match value {
        Some(value) => Some(value@),
        None => None,
    }
}

fn trimmed_text(value: Option<&str>) -> (r: Option<String>)
    ensures
        paths::view_of(r) == preference_spec(str_view(value)),
{
    match value {
        Some(value) => {
            let trimmed = text::trim(value);
            if trimmed.is_empty() {
                None
            } else {
                Some(trimmed.to_owned())
            }
        },
        None => None,
    }
}

impl AppPaths {
    /// The preference that the file holds; no file, no preference.
    pub fn load_output_device_preference(contents: Option<&str>) -> (r: Option<String>)
        ensures
            paths::view_of(r) == preference_spec(str_view(contents)),
            contents is None ==> r is None,
            contents matches Some(text) ==> (text::trim_spec(text@).len() > 0 <==> r is Some) && (
            r matches Some(kept) ==> kept@ == text::trim_spec(text@)),
    {
        trimmed_text(contents)
    }

    /// What the file is to hold; nothing, if there is to be no file.
    pub fn save_output_device_preference(preference: Option<&str>) -> (r: Option<String>)
        ensures
            paths::view_of(r) == preference_spec(str_view(preference)),
            preference is None ==> r is None,
            preference matches Some(text) ==> (text::trim_spec(text@).len() > 0 <==> r is Some) && (
            r matches Some(kept) ==> kept@ == text::trim_spec(text@)),
    {
        trimmed_text(preference)
    }
}

/// What was saved is what is read: the trimmed preference, or none.
pub proof fn saved_preference_is_read_back(preference: Option<Seq<char>>)
    ensures
        preference_spec(preference_spec(preference)) == preference_spec(preference),
{
    if preference is Some {
        text::trimming_twice_is_trimming(preference->0);
    }
}

} // verus!

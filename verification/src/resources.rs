use vstd::prelude::*;

verus! {

/// The block textures that ship with the game.
pub open spec fn builtin_textures() -> Seq<Seq<char>> {
    seq!["template.png"@, "rounded-square.png"@]
}

/// The names of the block textures that ship with the game.
pub fn builtin_texture_names() -> (r: Vec<&'static str>)
    ensures
        r@.len() == builtin_textures().len(),
        forall|i: int| 0 <= i < r@.len() ==> #[trigger] r@[i]@ == builtin_textures()[i],
{
    let r = vec!["template.png", "rounded-square.png"];
    assert(r@[0]@ == "template.png"@ && r@[1]@ == "rounded-square.png"@);
    r
}

/// The name of the settings file in the configuration folder.
pub fn settings_file_name() -> (r: &'static str)
    ensures
        r@ == "settings.json"@,
{
    "settings.json"
}

/// The folder, under the game's data folder, that holds extra skins,
/// textures or sounds.
pub open spec fn data_folder(kind: DataFolder) -> Seq<char> {
    match kind {
        DataFolder::Skins => "skins"@,
        DataFolder::Textures => "textures"@,
        DataFolder::Audio => "audio"@,
    }
}

/// The kinds of files the game looks for in its data folder.
#[derive(Debug, Clone, Copy, PartialEq, Eq, Structural)]
pub enum DataFolder {
    Skins,
    Textures,
    Audio,
}

/// The name of the folder, under the game's data folder, for `kind`.
pub fn data_folder_name(kind: DataFolder) -> (r: &'static str)
    ensures
        r@ == data_folder(kind),
{
    match kind {
        DataFolder::Skins => "skins",
        DataFolder::Textures => "textures",
        DataFolder::Audio => "audio",
    }
}

} // verus!

//! Checks on uploaded cover images.
use vstd::prelude::*;

use crate::errors::{BGCError, GEN};
use crate::prelude::GENResult;
use crate::text::eq_str;

verus! {

/// The media type of an upload, as `type/subtype` in lower case.
#[derive(Debug)]
pub struct ContentType {
    pub type_: String,
    pub subtype: String,
}

/// An uploaded file as the form reports it: its name, its media type and its
/// size in bytes.
#[derive(Debug)]
pub struct UploadedFile {
    pub file_name: Option<String>,
    pub content_type: Option<ContentType>,
    pub size: usize,
}

/// Whether an upload is an acceptable image: it has a name and a media type,
/// it is not empty, and its media type is an image.
pub open spec fn is_valid_image(file: UploadedFile) -> bool {
    &&& file.file_name is Some
    &&& file.content_type is Some
    &&& file.size > 0
    &&& file.content_type->0.type_@ == "image"@
}

/// The error message for an upload that is not an acceptable image, in the
/// order the checks are made.
pub open spec fn image_error_message(file: UploadedFile) -> Seq<char> {
    if file.file_name is None {
        "Bad image file name"@
    } else if file.content_type is None {
        "Bad image mime type"@
    } else if file.size == 0 {
        "Bad image file size"@
    } else {
        "Bad image mime type"@
    }
}

/// Checks an uploaded image: gives its file name and whether it is already
/// WebP, or the user error that names the first failed check.
pub fn verify_file_as_webp(file: &UploadedFile) -> (r: GENResult<(&str, bool)>)
    ensures
        r is Ok <==> is_valid_image(*file),
        r is Ok <==> (file.file_name is Some && file.content_type is Some && file.size > 0
            && file.content_type->0.type_@ == "image"@),
        r matches Ok(v) ==> v.0@ == file.file_name->0@ && v.1 == (file.content_type->0.subtype@
            == "webp"@),
        r matches Err(e) ==> e is UserError && e.msg()@ == image_error_message(*file),
{
    let filename = get_file_name(file)?;
    let mime = get_file_mime(file)?;
    verify_file_size(file)?;
    verify_img_mimetype(mime)?;
    Ok((filename, mime_is_webp(mime)))
}

fn get_file_name(file: &UploadedFile) -> (r: GENResult<&str>)
    ensures
        file.file_name is Some ==> (r matches Ok(n) && n@ == file.file_name->0@),
        file.file_name is None ==> (r matches Err(e) && e is UserError && e.msg()@
            == "Bad image file name"@),
{
    match &file.file_name {
        Some(name) => Ok(name.as_str()),
        None => Err(BGCError::UserError(String::from_str("Bad image file name"))),
    }
}

fn get_file_mime(file: &UploadedFile) -> (r: GENResult<&ContentType>)
    ensures
        file.content_type is Some ==> (r matches Ok(m) && *m == file.content_type->0),
        file.content_type is None ==> (r matches Err(e) && e is UserError && e.msg()@
            == "Bad image mime type"@),
{
    match &file.content_type {
        Some(mime) => Ok(mime),
        None => Err(BGCError::UserError(String::from_str("Bad image mime type"))),
    }
}

fn verify_file_size(file: &UploadedFile) -> (r: GENResult<()>)
    ensures
        file.size > 0 ==> r is Ok,
        file.size == 0 ==> (r matches Err(e) && e is UserError && e.msg()@
            == "Bad image file size"@),
{
    if file.size <= 0 {
        return Err(BGCError::UserError(String::from_str("Bad image file size")));
    }
    Ok(())
}

fn verify_img_mimetype(mime: &ContentType) -> (r: GENResult<()>)
    ensures
        mime.type_@ == "image"@ ==> r is Ok,
        mime.type_@ != "image"@ ==> (r matches Err(e) && e is UserError && e.msg()@
            == "Bad image mime type"@),
{
    if eq_str(mime.type_.as_str(), "image") {
        Ok(())
    } else {
        Err(BGCError::UserError(String::from_str("Bad image mime type")))
    }
}

fn mime_is_webp(mime: &ContentType) -> (b: bool)
    ensures
        b == (mime.subtype@ == "webp"@),
{
    eq_str(mime.subtype.as_str(), "webp")
}

/// Which uploaded image to save: none when no file was sent or its name is
/// empty; else its file name and whether it is already WebP, once it has
/// passed the checks of `verify_file_as_webp`, whose user error it gives
/// otherwise.
pub fn image_to_save(file: &Option<UploadedFile>) -> (r: GENResult<Option<(&str, bool)>>)
    ensures
        file is None ==> r == Ok::<Option<(&str, bool)>, BGCError<GEN>>(None),
        file matches Some(f) ==> {
            &&& (r is Ok <==> is_valid_image(*f))
            &&& (r matches Err(e) ==> e is UserError && e.msg()@ == image_error_message(*f))
            &&& (r matches Ok(v) ==> (f.file_name->0@.len() == 0 <==> v is None))
            &&& (r matches Ok(Some(v)) ==> v.0@ == f.file_name->0@ && v.1 == (
                f.content_type->0.subtype@ == "webp"@))
        },
{
    match file {
        None => Ok(None),
        Some(f) => {
            match verify_file_as_webp(f) {
                Err(e) => Err(e),
                Ok((filename, is_webp)) => {
                    proof {
                        reveal_strlit("");
                        assert(""@.len() == 0);
                        assert(filename@.len() == 0 ==> filename@ =~= ""@);
                    }
                    if eq_str(filename, "") {
                        Ok(None)
                    } else {
                        Ok(Some((filename, is_webp)))
                    }
                },
            }
        },
    }
}

/// Two uploads that differ at most in the subtype of their media type.
pub open spec fn same_but_subtype(f: UploadedFile, g: UploadedFile) -> bool {
    &&& f.file_name == g.file_name
    &&& f.size == g.size
    &&& (f.content_type is Some <==> g.content_type is Some)
    &&& (f.content_type is Some ==> f.content_type->0.type_ == g.content_type->0.type_)
}

/// Every image is accepted, whatever its format: an upload with a name, a
/// media type of type `image` and a size above zero passes the checks, and
/// the subtype (`png`, `jpeg`, `webp`, ...) never changes whether an upload
/// passes or which error it gets; it only tells whether it is converted.
pub proof fn law_any_image_format_is_accepted(f: UploadedFile, g: UploadedFile)
    ensures
        (f.file_name is Some && f.content_type is Some && f.size > 0 && f.content_type->0.type_@
            == "image"@) ==> is_valid_image(f),
        is_valid_image(f) ==> f.file_name is Some && f.content_type is Some && f.size > 0
            && f.content_type->0.type_@ == "image"@,
        same_but_subtype(f, g) ==> is_valid_image(f) == is_valid_image(g)
            && image_error_message(f) == image_error_message(g),
{
}

/// The folder that holds the images of the board game `uid`.
pub fn asset_dir(data_dir: &str, uid: &str) -> (dir: String)
    ensures
        dir@ == data_dir@ + "/assets/"@ + uid@,
{
    let mut dir = data_dir.to_string();
    dir.append("/assets/");
    dir.append(uid);
    dir
}

} // verus!

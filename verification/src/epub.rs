//! The container writer. The work-in-progress EPUB is an `epub_builder`
//! value held opaquely; its contents are modelled by four uninterpreted
//! views — the documents, the plain resources, the metadata and the cover
//! mark — and every call into the outside crate goes through a trusted
//! wrapper whose contract says what the call does to those views.

use vstd::prelude::*;
use vstd::string::*;
use vstd::utf8::encode_utf8;

use epub_builder::{EpubBuilder, EpubContent, EpubVersion, ReferenceType, ZipLibrary};

use crate::BookPlan;
use crate::Error;
use crate::assemble::{ImageResourceV, PackagePlan, PackageUnitV, RefRole};

verus! {

/// A zip archive backend of the container.
#[verifier::external_type_specification]
#[verifier::external_body]
pub struct ExZipLibrary(ZipLibrary);

/// A reference-type tag of the container's guide section.
#[verifier::external_type_specification]
#[verifier::external_body]
pub struct ExReferenceType(ReferenceType);

/// The work-in-progress container. The `epub_builder` builder is generic
/// over a zip backend trait that the crate does not export, so the value is
/// held in an opaque field rather than declared directly.
#[verifier::external_body]
pub struct EpubPackage {
    inner: EpubBuilder<ZipLibrary>,
}

/// The documents of the container, in the order added: name, text, display
/// title and role tag of each.
pub uninterp spec fn pkg_docs(b: EpubPackage) -> Seq<
    (Seq<char>, Seq<char>, Option<Seq<char>>, Option<RefRole>),
>;

/// The plain resources of the container, in the order added: path, bytes
/// and MIME type of each.
pub uninterp spec fn pkg_resources(b: EpubPackage) -> Seq<(Seq<char>, Seq<u8>, Seq<char>)>;

/// The metadata of the container: the value most recently given for each
/// key.
pub uninterp spec fn pkg_meta(b: EpubPackage) -> Map<Seq<char>, Seq<char>>;

/// The path of the resource most recently marked as the cover image.
pub uninterp spec fn pkg_cover(b: EpubPackage) -> Option<Seq<char>>;

/// Relies on epub_builder::ZipLibrary::new: opens an empty in-memory zip
/// archive.
#[verifier::external_body]
fn zip_new() -> (r: Result<ZipLibrary, Error>)
    ensures
        r matches Err(e) ==> e matches Error::Package(_),
{
    match ZipLibrary::new() {
        Ok(z) => Ok(z),
        Err(e) => Err(Error::Package(format!("{}", e))),
    }
}

/// Relies on epub_builder::EpubBuilder::new: starts a container with no
/// documents, no resources and no cover mark.
#[verifier::external_body]
fn pkg_new(zip: ZipLibrary) -> (r: Result<EpubPackage, Error>)
    ensures
        r matches Ok(b) ==> pkg_docs(b).len() == 0,
        r matches Ok(b) ==> pkg_resources(b).len() == 0,
        r matches Ok(b) ==> pkg_cover(b) is None,
        r matches Err(e) ==> e matches Error::Package(_),
{
    match EpubBuilder::new(zip) {
        Ok(inner) => Ok(EpubPackage { inner }),
        Err(e) => Err(Error::Package(format!("{}", e))),
    }
}

/// Relies on epub_builder::EpubBuilder::epub_version: sets the container
/// version and touches nothing else.
#[verifier::external_body]
fn pkg_set_version_v30(b: &mut EpubPackage)
    ensures
        pkg_docs(*final(b)) == pkg_docs(*old(b)),
        pkg_resources(*final(b)) == pkg_resources(*old(b)),
        pkg_meta(*final(b)) == pkg_meta(*old(b)),
        pkg_cover(*final(b)) == pkg_cover(*old(b)),
{
    b.inner.epub_version(EpubVersion::V30);
}

/// Relies on epub_builder::EpubBuilder::metadata: records the value under
/// the key; the five keys used here are in its accepted set, and an error
/// leaves the container as it was.
#[verifier::external_body]
fn pkg_metadata(b: &mut EpubPackage, key: &str, value: &str) -> (r: Result<(), Error>)
    ensures
        r is Ok ==> pkg_meta(*final(b)) == pkg_meta(*old(b)).insert(key@, value@),
        r is Ok ==> pkg_docs(*final(b)) == pkg_docs(*old(b)) && pkg_resources(*final(b))
            == pkg_resources(*old(b)) && pkg_cover(*final(b)) == pkg_cover(*old(b)),
        key@ == "author"@ || key@ == "title"@ || key@ == "lang"@ || key@ == "generator"@ || key@
            == "toc_name"@ ==> r is Ok,
        r is Err ==> pkg_docs(*final(b)) == pkg_docs(*old(b)) && pkg_resources(*final(b))
            == pkg_resources(*old(b)) && pkg_meta(*final(b)) == pkg_meta(*old(b)) && pkg_cover(
            *final(b),
        ) == pkg_cover(*old(b)),
        r matches Err(e) ==> e matches Error::Package(_),
{
    match b.inner.metadata(key, value) {
        Ok(_) => Ok(()),
        Err(e) => Err(Error::Package(format!("{}", e))),
    }
}

/// Relies on epub_builder::EpubBuilder::add_resource: stores the bytes
/// under the path and appends one resource entry; on an error no entry is
/// appended.
#[verifier::external_body]
fn pkg_add_resource(b: &mut EpubPackage, path: &str, content: &[u8], mime: &str) -> (r: Result<
    (),
    Error,
>)
    ensures
        r is Ok ==> pkg_resources(*final(b)) == pkg_resources(*old(b)).push(
            (path@, content@, mime@),
        ),
        r is Ok ==> pkg_docs(*final(b)) == pkg_docs(*old(b)) && pkg_meta(*final(b)) == pkg_meta(
            *old(b),
        ) && pkg_cover(*final(b)) == pkg_cover(*old(b)),
        r is Err ==> pkg_docs(*final(b)) == pkg_docs(*old(b)) && pkg_resources(*final(b))
            == pkg_resources(*old(b)) && pkg_meta(*final(b)) == pkg_meta(*old(b)) && pkg_cover(
            *final(b),
        ) == pkg_cover(*old(b)),
        r matches Err(e) ==> e matches Error::Package(_),
{
    match b.inner.add_resource(path, content, mime) {
        Ok(_) => Ok(()),
        Err(e) => Err(Error::Package(format!("{}", e))),
    }
}

/// Relies on epub_builder::EpubBuilder::add_cover_image: as a resource, and
/// the entry is marked as the cover.
#[verifier::external_body]
fn pkg_add_cover_image(b: &mut EpubPackage, path: &str, content: &[u8], mime: &str) -> (r: Result<
    (),
    Error,
>)
    ensures
        r is Ok ==> pkg_resources(*final(b)) == pkg_resources(*old(b)).push(
            (path@, content@, mime@),
        ) && pkg_cover(*final(b)) == Some(path@),
        r is Ok ==> pkg_docs(*final(b)) == pkg_docs(*old(b)) && pkg_meta(*final(b)) == pkg_meta(
            *old(b),
        ),
        r is Err ==> pkg_docs(*final(b)) == pkg_docs(*old(b)) && pkg_resources(*final(b))
            == pkg_resources(*old(b)) && pkg_meta(*final(b)) == pkg_meta(*old(b)) && pkg_cover(
            *final(b),
        ) == pkg_cover(*old(b)),
        r matches Err(e) ==> e matches Error::Package(_),
{
    match b.inner.add_cover_image(path, content, mime) {
        Ok(_) => Ok(()),
        Err(e) => Err(Error::Package(format!("{}", e))),
    }
}

/// Relies on epub_builder::ReferenceType: the role tags of the guide
/// section, one for each role a unit can carry. The crate offers no tag
/// for an afterword, so the nearest rear-matter tag stands in for it.
#[verifier::external_body]
fn ref_type_of(role: RefRole) -> ReferenceType {
    match role {
        RefRole::Cover => ReferenceType::Cover,
        RefRole::Toc => ReferenceType::Toc,
        RefRole::Preface => ReferenceType::Preface,
        RefRole::TitlePage => ReferenceType::TitlePage,
        RefRole::Text => ReferenceType::Text,
        RefRole::Afterword => ReferenceType::Acknowledgements,
        RefRole::Copyright => ReferenceType::Copyright,
        RefRole::Bibliography => ReferenceType::Bibliography,
        RefRole::Colophon => ReferenceType::Colophon,
    }
}

/// Relies on epub_builder::EpubBuilder::add_content: stores the document
/// under its name and appends one document entry with the given title and
/// role; on an error no entry is appended.
#[verifier::external_body]
fn pkg_add_content(
    b: &mut EpubPackage,
    name: &str,
    content: &str,
    title: Option<&String>,
    role: Option<RefRole>,
) -> (r: Result<(), Error>)
    ensures
        r is Ok ==> pkg_docs(*final(b)) == pkg_docs(*old(b)).push(
            (
                name@,
                content@,
                match title {
                    Some(t) => Some(t@),
                    None => None,
                },
                role,
            ),
        ),
        r is Ok ==> pkg_resources(*final(b)) == pkg_resources(*old(b)) && pkg_meta(*final(b))
            == pkg_meta(*old(b)) && pkg_cover(*final(b)) == pkg_cover(*old(b)),
        r is Err ==> pkg_docs(*final(b)) == pkg_docs(*old(b)) && pkg_resources(*final(b))
            == pkg_resources(*old(b)) && pkg_meta(*final(b)) == pkg_meta(*old(b)) && pkg_cover(
            *final(b),
        ) == pkg_cover(*old(b)),
        r matches Err(e) ==> e matches Error::Package(_),
{
    let mut c = EpubContent::new(name, content.as_bytes());
    if let Some(t) = title {
        c = c.title(t.as_str());
    }
    if let Some(ro) = role {
        c = c.reftype(ref_type_of(ro));
    }
    match b.inner.add_content(c) {
        Ok(_) => Ok(()),
        Err(e) => Err(Error::Package(format!("{}", e))),
    }
}

/// Relies on epub_builder::EpubBuilder::generate: serializes the finished
/// container into bytes. The bytes depend on a fresh identifier and the
/// current date, so nothing is stated of them.
#[verifier::external_body]
pub fn package_bytes(b: EpubPackage) -> (r: Result<Vec<u8>, Error>) {
    let mut out: Vec<u8> = Vec::new();
    match b.inner.generate(&mut out) {
        Ok(_) => Ok(out),
        Err(e) => Err(Error::Package(format!("{}", e))),
    }
}

/// One image file handed in by the caller: its bare name and its bytes.
pub struct ImageFile {
    pub name: String,
    pub data: Vec<u8>,
}

/// The mathematical value of an image file.
pub struct ImageFileV {
    pub name: Seq<char>,
    pub data: Seq<u8>,
}

impl View for ImageFile {
    type V = ImageFileV;

    open spec fn view(&self) -> ImageFileV {
        ImageFileV { name: self.name@, data: self.data@ }
    }
}

impl DeepView for ImageFile {
    type V = ImageFileV;

    open spec fn deep_view(&self) -> ImageFileV {
        self.view()
    }
}

/// The static assets of every container: the two stylesheets, the spacing
/// image, and the cover image bytes.
pub struct Assets {
    pub book_style: String,
    pub fit_style: String,
    pub keep_space: Vec<u8>,
    pub cover: Vec<u8>,
}

/// The bytes of the first image file carrying `name`.
pub open spec fn lookup_image(imgs: Seq<ImageFileV>, name: Seq<char>) -> Option<Seq<u8>>
    decreases imgs.len(),
{
    if imgs.len() == 0 {
        None
    } else if imgs[0].name == name {
        Some(imgs[0].data)
    } else {
        lookup_image(imgs.skip(1), name)
    }
}

/// The resource entries of the plan with each file's bytes looked up, or
/// nothing when a file is missing.
pub open spec fn resources_bytes(rs: Seq<ImageResourceV>, imgs: Seq<ImageFileV>) -> Option<
    Seq<(Seq<char>, Seq<u8>, Seq<char>)>,
>
    decreases rs.len(),
{
    if rs.len() == 0 {
        Some(Seq::empty())
    } else {
        match lookup_image(imgs, rs[0].file) {
            None => None,
            Some(d) => match resources_bytes(rs.skip(1), imgs) {
                None => None,
                Some(t) => Some(seq![(rs[0].path, d, rs[0].mime)] + t),
            },
        }
    }
}

/// The document entries of the plan's units.
pub open spec fn docs_of_units(units: Seq<PackageUnitV>) -> Seq<
    (Seq<char>, Seq<char>, Option<Seq<char>>, Option<RefRole>),
> {
    units.map_values(|u: PackageUnitV| (u.name, u.content, u.title, u.role))
}

/// The fixed resources that open every container, followed by the cover.
pub open spec fn fixed_resources(assets: Assets, cover_mime: Seq<char>) -> Seq<
    (Seq<char>, Seq<u8>, Seq<char>),
> {
    seq![
        ("style/book-style.css"@, encode_utf8(assets.book_style@), "text/css"@),
        ("style/fit-style.css"@, encode_utf8(assets.fit_style@), "text/css"@),
        ("image/keep-space.jpg"@, assets.keep_space@, "image/jpeg"@),
        ("image/cover-image.jpg"@, assets.cover@, cover_mime),
    ]
}

/// Find the bytes of an image file by name.
fn find_image<'a>(images: &'a Vec<ImageFile>, name: &str) -> (r: Option<&'a Vec<u8>>)
    ensures
        match r {
            Some(d) => lookup_image(images.deep_view(), name@) == Some(d@),
            None => lookup_image(images.deep_view(), name@) is None,
        },
{
    let ghost iv = images.deep_view();
    let n = images.len();
    let mut i: usize = 0;
    proof {
        assert(iv.skip(0) =~= iv);
    }
    while i < n
        invariant
            iv == images.deep_view(),
            n == images@.len(),
            iv.len() == n,
            0 <= i <= n,
            lookup_image(iv, name@) == lookup_image(iv.skip(i as int), name@),
        decreases n - i,
    {
        proof {
            assert(iv.skip(i as int)[0] == iv[i as int]);
            assert(iv[i as int] == images@[i as int]@);
            assert(iv.skip(i as int).skip(1) =~= iv.skip(i + 1));
        }
        if crate::text::str_eq(images[i].name.as_str(), name) {
            return Some(&images[i].data);
        }
        i += 1;
    }
    proof {
        assert(iv.skip(n as int) =~= Seq::<ImageFileV>::empty());
    }
    None
}

/// Assemble the finished package plan into the container: the metadata, the
/// fixed resources, the cover image, every image resource with its bytes,
/// and every document in plan order.
pub fn build_epub(
    plan: &BookPlan,
    pkg: &PackagePlan,
    assets: &Assets,
    images: &Vec<ImageFile>,
) -> (r: Result<EpubPackage, Error>)
    ensures
        match r {
            Ok(b) => {
                &&& pkg_meta(b).contains_pair("author"@, plan.author@)
                &&& pkg_meta(b).contains_pair("title"@, plan.title@)
                &&& pkg_meta(b).contains_pair("lang"@, plan.lang@)
                &&& pkg_meta(b).contains_pair("generator"@, plan.generator@)
                &&& pkg_meta(b).contains_pair("toc_name"@, plan.toc_name@)
                &&& pkg_cover(b) == Some("image/cover-image.jpg"@)
                &&& resources_bytes(pkg@.resources, images.deep_view()) is Some
                &&& pkg_resources(b) == fixed_resources(*assets, pkg.cover.mime@)
                    + resources_bytes(pkg@.resources, images.deep_view())->0
                &&& pkg_docs(b) == docs_of_units(pkg@.units)
            },
            Err(e) => e matches Error::MissingImage(f) ==> lookup_image(
                images.deep_view(),
                f@,
            ) is None,
        },
{
    let zip = match zip_new() {
        Ok(z) => z,
        Err(e) => {
            return Err(e);
        },
    };
    let mut b = match pkg_new(zip) {
        Ok(b) => b,
        Err(e) => {
            return Err(e);
        },
    };
    pkg_set_version_v30(&mut b);
    let ghost m0 = pkg_meta(b);
    if let Err(e) = pkg_metadata(&mut b, "author", plan.author.as_str()) {
        return Err(e);
    }
    let ghost m1 = pkg_meta(b);
    if let Err(e) = pkg_metadata(&mut b, "title", plan.title.as_str()) {
        return Err(e);
    }
    let ghost m2 = pkg_meta(b);
    if let Err(e) = pkg_metadata(&mut b, "lang", plan.lang.as_str()) {
        return Err(e);
    }
    let ghost m3 = pkg_meta(b);
    if let Err(e) = pkg_metadata(&mut b, "generator", plan.generator.as_str()) {
        return Err(e);
    }
    let ghost m4 = pkg_meta(b);
    if let Err(e) = pkg_metadata(&mut b, "toc_name", plan.toc_name.as_str()) {
        return Err(e);
    }
    proof {
        reveal_strlit("author");
        reveal_strlit("title");
        reveal_strlit("lang");
        reveal_strlit("generator");
        reveal_strlit("toc_name");
        assert(m1 == m0.insert("author"@, plan.author@));
        assert(m2 == m1.insert("title"@, plan.title@));
        assert(m3 == m2.insert("lang"@, plan.lang@));
        assert(m4 == m3.insert("generator"@, plan.generator@));
        assert(pkg_meta(b) == m4.insert("toc_name"@, plan.toc_name@));
        assert("author"@.len() == 6 && "title"@.len() == 5 && "lang"@.len() == 4 && "generator"@.len()
            == 9 && "toc_name"@.len() == 8);
        assert(pkg_meta(b).contains_pair("author"@, plan.author@));
        assert(pkg_meta(b).contains_pair("title"@, plan.title@));
        assert(pkg_meta(b).contains_pair("lang"@, plan.lang@));
        assert(pkg_meta(b).contains_pair("generator"@, plan.generator@));
        assert(pkg_meta(b).contains_pair("toc_name"@, plan.toc_name@));
    }
    if let Err(e) = pkg_add_resource(
        &mut b,
        "style/book-style.css",
        assets.book_style.as_str().as_bytes(),
        "text/css",
    ) {
        return Err(e);
    }
    if let Err(e) = pkg_add_resource(
        &mut b,
        "style/fit-style.css",
        assets.fit_style.as_str().as_bytes(),
        "text/css",
    ) {
        return Err(e);
    }
    if let Err(e) = pkg_add_resource(
        &mut b,
        "image/keep-space.jpg",
        assets.keep_space.as_slice(),
        "image/jpeg",
    ) {
        return Err(e);
    }
    if let Err(e) = pkg_add_cover_image(
        &mut b,
        "image/cover-image.jpg",
        assets.cover.as_slice(),
        pkg.cover.mime.as_str(),
    ) {
        return Err(e);
    }
    proof {
        assert(pkg_resources(b) =~= fixed_resources(*assets, pkg.cover.mime@));
    }
    let ghost rv = pkg@.resources;
    let ghost iv = images.deep_view();
    let nr = pkg.resources.len();
    let mut i: usize = 0;
    proof {
        assert(rv.skip(0) =~= rv);
    }
    while i < nr
        invariant
            rv == pkg@.resources,
            iv == images.deep_view(),
            nr == pkg.resources@.len(),
            rv.len() == nr,
            0 <= i <= nr,
            pkg_meta(b).contains_pair("author"@, plan.author@),
            pkg_meta(b).contains_pair("title"@, plan.title@),
            pkg_meta(b).contains_pair("lang"@, plan.lang@),
            pkg_meta(b).contains_pair("generator"@, plan.generator@),
            pkg_meta(b).contains_pair("toc_name"@, plan.toc_name@),
            pkg_cover(b) == Some("image/cover-image.jpg"@),
            pkg_docs(b) == Seq::<
                (Seq<char>, Seq<char>, Option<Seq<char>>, Option<RefRole>),
            >::empty(),
            resources_bytes(rv.skip(i as int), iv) is None ==> resources_bytes(rv, iv) is None,
            resources_bytes(rv.skip(i as int), iv) matches Some(tail) ==> resources_bytes(
                rv,
                iv,
            ) is Some && pkg_resources(b) + tail == fixed_resources(*assets, pkg.cover.mime@)
                + resources_bytes(rv, iv)->0,
        decreases nr - i,
    {
        let ghost rest = rv.skip(i as int);
        proof {
            assert(rest[0] == rv[i as int]);
            assert(rv[i as int] == pkg.resources@[i as int]@);
            assert(rest.skip(1) =~= rv.skip(i + 1));
        }
        let item = &pkg.resources[i];
        let data = match find_image(images, item.file.as_str()) {
            Some(d) => d,
            None => {
                proof {
                    assert(lookup_image(iv, rest[0].file) is None);
                    assert(resources_bytes(rest, iv) is None);
                }
                return Err(Error::MissingImage(item.file.clone()));
            },
        };
        let ghost prev = pkg_resources(b);
        if let Err(e) = pkg_add_resource(&mut b, item.path.as_str(), data.as_slice(), item.mime.as_str()) {
            return Err(e);
        }
        proof {
            let entry = (rest[0].path, lookup_image(iv, rest[0].file)->0, rest[0].mime);
            assert(pkg_resources(b) == prev.push(entry));
            if resources_bytes(rv.skip(i + 1), iv) is Some {
                let tail2 = resources_bytes(rv.skip(i + 1), iv)->0;
                assert(resources_bytes(rest, iv) == Some(seq![entry] + tail2));
                assert(pkg_resources(b) + tail2 =~= prev + (seq![entry] + tail2));
            } else {
                assert(resources_bytes(rest, iv) is None);
            }
        }
        i += 1;
    }
    proof {
        assert(rv.skip(nr as int) =~= Seq::<ImageResourceV>::empty());
        assert(resources_bytes(rv.skip(nr as int), iv) == Some(Seq::<
            (Seq<char>, Seq<u8>, Seq<char>),
        >::empty()));
        assert(pkg_resources(b) + Seq::<(Seq<char>, Seq<u8>, Seq<char>)>::empty()
            =~= pkg_resources(b));
    }
    let ghost uv = pkg@.units;
    let nu = pkg.units.len();
    let mut j: usize = 0;
    proof {
        assert(docs_of_units(uv.take(0)) =~= Seq::<
            (Seq<char>, Seq<char>, Option<Seq<char>>, Option<RefRole>),
        >::empty());
    }
    while j < nu
        invariant
            uv == pkg@.units,
            iv == images.deep_view(),
            rv == pkg@.resources,
            nu == pkg.units@.len(),
            uv.len() == nu,
            0 <= j <= nu,
            pkg_meta(b).contains_pair("author"@, plan.author@),
            pkg_meta(b).contains_pair("title"@, plan.title@),
            pkg_meta(b).contains_pair("lang"@, plan.lang@),
            pkg_meta(b).contains_pair("generator"@, plan.generator@),
            pkg_meta(b).contains_pair("toc_name"@, plan.toc_name@),
            pkg_cover(b) == Some("image/cover-image.jpg"@),
            resources_bytes(rv, iv) is Some,
            pkg_resources(b) == fixed_resources(*assets, pkg.cover.mime@) + resources_bytes(
                rv,
                iv,
            )->0,
            pkg_docs(b) == docs_of_units(uv.take(j as int)),
        decreases nu - j,
    {
        let unit = &pkg.units[j];
        proof {
            assert(uv[j as int] == pkg.units@[j as int]@);
        }
        let title_ref: Option<&String> = match &unit.title {
            Some(t) => Some(t),
            None => None,
        };
        if let Err(e) = pkg_add_content(
            &mut b,
            unit.name.as_str(),
            unit.content.as_str(),
            title_ref,
            unit.role,
        ) {
            return Err(e);
        }
        proof {
            assert(docs_of_units(uv.take(j + 1)) =~= docs_of_units(uv.take(j as int)).push(
                (uv[j as int].name, uv[j as int].content, uv[j as int].title, uv[j as int].role),
            ));
        }
        j += 1;
    }
    proof {
        assert(uv.take(nu as int) =~= uv);
    }
    Ok(b)
}

} // verus!

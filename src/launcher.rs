//! The types of the dynamic launcher interface and their wire forms.
use vstd::prelude::*;
use crate::wire::{strings_view, DecodeError, Value, ValueView};

verus! {

/// The type of the launcher.
#[derive(Debug, Clone, Copy, PartialEq, Eq, Structural)]
pub enum LauncherType {
    /// A launcher that represents an application
    Application,
    /// A launcher that represents a web application
    WebApplication,
}

/// The bit that stands for a launcher type in a flag set: bit N for the
/// N-th type in declaration order.
pub open spec fn launcher_type_bit(t: LauncherType) -> u32 {
    match t {
        LauncherType::Application => 1,
        LauncherType::WebApplication => 2,
    }
}

impl LauncherType {
    /// The bit that stands for this type in a flag set, which is also its
    /// encoding on the wire.
    pub fn bit(&self) -> (r: u32)
        ensures
            r == launcher_type_bit(*self),
    {
        match self {
            LauncherType::Application => 1,
            LauncherType::WebApplication => 2,
        }
    }
}

impl Default for LauncherType {
    fn default() -> (r: LauncherType)
        ensures
            r == LauncherType::Application,
    {
        LauncherType::Application
    }
}

/// Whether the bit of `t` is set in `bits`.
pub open spec fn has_bit(bits: u32, t: LauncherType) -> bool {
    match t {
        LauncherType::Application => bits % 2 == 1,
        LauncherType::WebApplication => (bits / 2) % 2 == 1,
    }
}

/// A set of launcher types, sent on the wire as a packed `u32`.
#[derive(Debug, Clone, Copy, PartialEq, Eq, Structural)]
pub struct LauncherTypes {
    application: bool,
    web_application: bool,
}

impl View for LauncherTypes {
    type V = Set<LauncherType>;

    closed spec fn view(&self) -> Set<LauncherType> {
        Set::new(
            |t: LauncherType|
                match t {
                    LauncherType::Application => self.application,
                    LauncherType::WebApplication => self.web_application,
                },
        )
    }
}

impl LauncherTypes {
    /// Reads a packed flag set; a bit that names no launcher type is refused.
    pub fn from_bits(bits: u32) -> (r: Result<LauncherTypes, DecodeError>)
        ensures
            bits < 4 <==> r.is_ok(),
            bits >= 4 ==> r == Err::<LauncherTypes, DecodeError>(DecodeError::UnknownVariant),
            r.is_ok() ==> forall|t: LauncherType| #[trigger] r.unwrap()@.contains(t) == has_bit(bits, t),
    {
        if bits >= 4 {
            return Err(DecodeError::UnknownVariant);
        }
        let r = LauncherTypes { application: bits % 2 == 1, web_application: bits / 2 == 1 };
        assert forall|t: LauncherType| r@.contains(t) == has_bit(bits, t) by {
            match t {
                LauncherType::Application => {},
                LauncherType::WebApplication => {},
            }
        }
        Ok(r)
    }

    /// The packed form of the set.
    pub fn bits(&self) -> (r: u32)
        ensures
            r < 4,
            forall|t: LauncherType| #[trigger] self@.contains(t) == has_bit(r, t),
    {
        let a: u32 = if self.application { 1 } else { 0 };
        let w: u32 = if self.web_application { 2 } else { 0 };
        let r = a + w;
        assert forall|t: LauncherType| self@.contains(t) == has_bit(r, t) by {
            match t {
                LauncherType::Application => {},
                LauncherType::WebApplication => {},
            }
        }
        r
    }

    /// Whether the set holds `t`.
    pub fn contains(&self, t: LauncherType) -> (r: bool)
        ensures
            r == self@.contains(t),
    {
        match t {
            LauncherType::Application => self.application,
            LauncherType::WebApplication => self.web_application,
        }
    }
}

/// The icon format.
#[derive(Debug, Clone, Copy, PartialEq, Eq, Structural)]
pub enum IconType {
    /// PNG.
    Png,
    /// JPEG.
    Jpeg,
    /// SVG.
    Svg,
}

/// The tag that names an icon format on the wire.
pub open spec fn icon_type_name(t: IconType) -> Seq<char> {
    match t {
        IconType::Png => "png"@,
        IconType::Jpeg => "jpeg"@,
        IconType::Svg => "svg"@,
    }
}

/// The icon format that a tag names.
pub open spec fn icon_type_of(s: Seq<char>) -> Result<IconType, DecodeError> {
    if s == "png"@ {
        Ok(IconType::Png)
    } else if s == "jpeg"@ {
        Ok(IconType::Jpeg)
    } else if s == "svg"@ {
        Ok(IconType::Svg)
    } else {
        Err(DecodeError::UnknownVariant)
    }
}

impl IconType {
    /// The lowercase tag of the format.
    pub fn as_str(&self) -> (r: &'static str)
        ensures
            r@ == icon_type_name(*self),
    {
        match self {
            IconType::Png => "png",
            IconType::Jpeg => "jpeg",
            IconType::Svg => "svg",
        }
    }

    /// Reads a format tag; a tag that names no format is refused.
    pub fn from_name(s: &String) -> (r: Result<IconType, DecodeError>)
        ensures
            r == icon_type_of(s@),
    {
        if *s == "png".to_owned() {
            Ok(IconType::Png)
        } else if *s == "jpeg".to_owned() {
            Ok(IconType::Jpeg)
        } else if *s == "svg".to_owned() {
            Ok(IconType::Svg)
        } else {
            Err(DecodeError::UnknownVariant)
        }
    }
}

/// An icon, as sent to or received from the portal.
#[derive(Debug, PartialEq, Eq)]
pub enum Icon {
    /// The image itself.
    Bytes(Vec<u8>),
    /// Themed icon names, the preferred first.
    Names(Vec<String>),
    /// A path to an image file.
    File(String),
}

/// The mathematical content of an [`Icon`].
pub enum IconView {
    Bytes(Seq<u8>),
    Names(Seq<Seq<char>>),
    File(Seq<char>),
}

impl View for Icon {
    type V = IconView;

    open spec fn view(&self) -> IconView {
        match self {
            Icon::Bytes(b) => IconView::Bytes(b@),
            Icon::Names(n) => IconView::Names(strings_view(n@)),
            Icon::File(p) => IconView::File(p@),
        }
    }
}

/// The kind tag under which an icon travels.
pub open spec fn icon_kind(i: IconView) -> Seq<char> {
    match i {
        IconView::Bytes(_) => "bytes"@,
        IconView::Names(_) => "themed"@,
        IconView::File(_) => "file"@,
    }
}

/// The value under which an icon travels.
pub open spec fn icon_data(i: IconView) -> ValueView {
    match i {
        IconView::Bytes(b) => ValueView::Bytes(b),
        IconView::Names(n) => ValueView::StrList(n),
        IconView::File(p) => ValueView::Str(p),
    }
}

/// The icon that a kind tag and a value stand for.
pub open spec fn icon_of(kind: Seq<char>, data: ValueView) -> Result<IconView, DecodeError> {
    if kind == "bytes"@ {
        match data {
            ValueView::Bytes(b) => Ok(IconView::Bytes(b)),
            _ => Err(DecodeError::SignatureMismatch),
        }
    } else if kind == "themed"@ {
        match data {
            ValueView::StrList(n) => Ok(IconView::Names(n)),
            _ => Err(DecodeError::SignatureMismatch),
        }
    } else if kind == "file"@ {
        match data {
            ValueView::Str(p) => Ok(IconView::File(p)),
            _ => Err(DecodeError::SignatureMismatch),
        }
    } else {
        Err(DecodeError::UnknownVariant)
    }
}

impl Icon {
    /// An icon given by themed names.
    pub fn with_names(names: Vec<String>) -> (r: Icon)
        ensures
            r@ == IconView::Names(strings_view(names@)),
    {
        Icon::Names(names)
    }

    /// The kind tag and value under which the icon travels.
    pub fn encode(self) -> (r: (String, Value))
        ensures
            r.0@ == icon_kind(self@),
            r.1@ == icon_data(self@),
    {
        match self {
            Icon::Bytes(b) => ("bytes".to_owned(), Value::Bytes(b)),
            Icon::Names(n) => ("themed".to_owned(), Value::StrList(n)),
            Icon::File(p) => ("file".to_owned(), Value::Str(p)),
        }
    }

    /// Reads an icon from its kind tag and value.
    pub fn decode(kind: &String, data: Value) -> (r: Result<Icon, DecodeError>)
        ensures
            match r {
                Ok(i) => icon_of(kind@, data@) == Ok::<IconView, DecodeError>(i@),
                Err(e) => icon_of(kind@, data@) == Err::<IconView, DecodeError>(e),
            },
    {
        if *kind == "bytes".to_owned() {
            match data {
                Value::Bytes(b) => Ok(Icon::Bytes(b)),
                _ => Err(DecodeError::SignatureMismatch),
            }
        } else if *kind == "themed".to_owned() {
            match data {
                Value::StrList(n) => Ok(Icon::Names(n)),
                _ => Err(DecodeError::SignatureMismatch),
            }
        } else if *kind == "file".to_owned() {
            match data {
                Value::Str(p) => Ok(Icon::File(p)),
                _ => Err(DecodeError::SignatureMismatch),
            }
        } else {
            Err(DecodeError::UnknownVariant)
        }
    }
}

/// The icon of a launcher, with its format and its size in pixels.
#[derive(Debug, PartialEq, Eq)]
pub struct LauncherIcon(Icon, IconType, u32);

/// The wire shape of a launcher icon, `(vsu)`: the icon as a kind tag and a
/// value, the format tag, and the size.
#[derive(Debug, PartialEq, Eq)]
pub struct IconReply {
    pub icon_kind: String,
    pub icon_data: Value,
    pub format: String,
    pub size: u32,
}

impl View for LauncherIcon {
    type V = (IconView, IconType, u32);

    closed spec fn view(&self) -> (IconView, IconType, u32) {
        (self.0@, self.1, self.2)
    }
}

impl View for IconReply {
    type V = (Seq<char>, ValueView, Seq<char>, u32);

    open spec fn view(&self) -> (Seq<char>, ValueView, Seq<char>, u32) {
        (self.icon_kind@, self.icon_data@, self.format@, self.size)
    }
}

/// The wire form of a launcher icon.
pub open spec fn icon_reply_of(i: (IconView, IconType, u32)) -> (Seq<char>, ValueView, Seq<char>, u32) {
    (icon_kind(i.0), icon_data(i.0), icon_type_name(i.1), i.2)
}

/// The launcher icon that a reply carries: the icon is read first, then the format.
pub open spec fn launcher_icon_of(r: (Seq<char>, ValueView, Seq<char>, u32)) -> Result<
    (IconView, IconType, u32),
    DecodeError,
> {
    match icon_of(r.0, r.1) {
        Err(e) => Err(e),
        Ok(i) => match icon_type_of(r.2) {
            Err(e) => Err(e),
            Ok(t) => Ok((i, t, r.3)),
        },
    }
}

impl LauncherIcon {
    /// A launcher icon of the given format and size.
    pub fn new(icon: Icon, type_: IconType, size: u32) -> (r: LauncherIcon)
        ensures
            r@ == (icon@, type_, size),
    {
        LauncherIcon(icon, type_, size)
    }

    /// The actual icon.
    pub fn icon(&self) -> (r: &Icon)
        ensures
            r@ == self@.0,
    {
        &self.0
    }

    /// The icon type.
    pub fn type_(&self) -> (r: IconType)
        ensures
            r == self@.1,
    {
        self.1
    }

    /// The icon size.
    pub fn size(&self) -> (r: u32)
        ensures
            r == self@.2,
    {
        self.2
    }

    /// The wire signature of a launcher icon.
    pub fn signature() -> (r: &'static str)
        ensures
            r@ == "(vsu)"@,
    {
        "(vsu)"
    }

    /// The wire form of the icon.
    pub fn encode(self) -> (r: IconReply)
        ensures
            r@ == icon_reply_of(self@),
    {
        let LauncherIcon(icon, type_, size) = self;
        let (icon_kind, icon_data) = icon.encode();
        let format = type_.as_str().to_owned();
        IconReply { icon_kind, icon_data, format, size }
    }

    /// Reads a launcher icon from a reply.
    pub fn decode(reply: IconReply) -> (r: Result<LauncherIcon, DecodeError>)
        ensures
            match r {
                Ok(i) => launcher_icon_of(reply@) == Ok::<(IconView, IconType, u32), DecodeError>(i@),
                Err(e) => launcher_icon_of(reply@) == Err::<(IconView, IconType, u32), DecodeError>(e),
            },
    {
        let IconReply { icon_kind, icon_data, format, size } = reply;
        let icon = match Icon::decode(&icon_kind, icon_data) {
            Ok(i) => i,
            Err(e) => return Err(e),
        };
        match IconType::from_name(&format) {
            Ok(t) => Ok(LauncherIcon(icon, t, size)),
            Err(e) => Err(e),
        }
    }
}

/// Decoding the wire form of a launcher icon gives back the icon, its format
/// and its size, whatever the kind of icon and the format.
pub proof fn lemma_icon_round_trip(i: (IconView, IconType, u32))
    ensures
        launcher_icon_of(icon_reply_of(i)) == Ok::<(IconView, IconType, u32), DecodeError>(i),
{
    reveal_strlit("bytes");
    reveal_strlit("themed");
    reveal_strlit("file");
    reveal_strlit("png");
    reveal_strlit("jpeg");
    reveal_strlit("svg");
    assert("bytes"@[0] != "themed"@[0]);
    assert("bytes"@[0] != "file"@[0]);
    assert("themed"@[0] != "file"@[0]);
    assert("png"@[0] != "jpeg"@[0]);
    assert("png"@[0] != "svg"@[0]);
    assert("jpeg"@[0] != "svg"@[0]);
}

} // verus!

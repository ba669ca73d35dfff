//! Texture settings: how an image is to be sampled, and the name under which
//! a shader finds each kind of texture.
use vstd::prelude::*;

verus! {

#[derive(Debug, Copy, Clone, PartialEq, Eq, Structural)]
pub enum TextureFilter {
    Linear,
    Nearest,
}

#[derive(Debug, Copy, Clone, PartialEq, Eq, Structural)]
pub enum TextureWrap {
    Clamp,
    Repeat,
}

#[derive(Debug, Copy, Clone, PartialEq, Eq, Structural)]
pub enum TextureType {
    NoTexture,
    Diffuse,
    Specular,
    Ambient,
    Emissive,
    Height,
    Normal,
    Shininess,
    Opacity,
    Displacement,
    Lightmap,
    Reflection,
    Unknown,
}

/// The layout of the pixels of a decoded image, as far as the texture upload
/// distinguishes them.
#[derive(Debug, Copy, Clone, PartialEq, Eq, Structural)]
pub enum PixelLayout {
    /// One 8-bit luminance channel.
    L8,
    /// Three 8-bit channels.
    Rgb8,
    /// Four 8-bit channels.
    Rgba8,
    /// Any other layout; there is no upload format for it.
    Other,
}

/// The pair of format codes handed to the graphics API for one upload.
#[derive(Debug, Copy, Clone, PartialEq, Eq, Structural)]
pub struct UploadFormat {
    /// How the graphics API stores the texture.
    pub internal_format: u32,
    /// How the bytes handed over are laid out.
    pub data_format: u32,
}

pub const GL_RED: u32 = 0x1903;

pub const GL_RGB: u32 = 0x1907;

pub const GL_RGBA: u32 = 0x1908;

pub const GL_SRGB: u32 = 0x8C40;

pub const GL_SRGB_ALPHA: u32 = 0x8C42;

pub const GL_CLAMP_TO_EDGE: u32 = 0x812F;

pub const GL_REPEAT: u32 = 0x2901;

impl TextureType {
    /// The uniform name of this kind of texture, as characters.
    pub open spec fn uniform_name(self) -> Seq<char> {
        match self {
            TextureType::Diffuse => "texture_diffuse"@,
            TextureType::Specular => "texture_specular"@,
            TextureType::Ambient => "texture_ambient"@,
            TextureType::Emissive => "texture_emissive"@,
            TextureType::Normal => "texture_normal"@,
            TextureType::Height => "texture_height"@,
            TextureType::Shininess => "texture_shininess"@,
            TextureType::Opacity => "texture_opacity"@,
            TextureType::Displacement => "texture_displacement"@,
            TextureType::Lightmap => "texture_lightmap"@,
            TextureType::Reflection => "texture_reflection"@,
            TextureType::Unknown => "texture_unknown"@,
            TextureType::NoTexture => "texture_none"@,
        }
    }

    /// The number by which the scene importer knows this kind of texture.
    pub open spec fn import_code(self) -> u32 {
        match self {
            TextureType::NoTexture => 0,
            TextureType::Diffuse => 1,
            TextureType::Specular => 2,
            TextureType::Ambient => 3,
            TextureType::Emissive => 4,
            TextureType::Height => 5,
            TextureType::Normal => 6,
            TextureType::Shininess => 7,
            TextureType::Opacity => 8,
            TextureType::Displacement => 9,
            TextureType::Lightmap => 10,
            TextureType::Reflection => 11,
            TextureType::Unknown => 12,
        }
    }

    /// The name of the sampler uniform that a shader declares for this kind
    /// of texture.
    pub fn to_string(&self) -> (name: String)
        ensures
            name@ == self.uniform_name(),
    {
        let text: &str = match self {
            TextureType::Diffuse => "texture_diffuse",
            TextureType::Specular => "texture_specular",
            TextureType::Ambient => "texture_ambient",
            TextureType::Emissive => "texture_emissive",
            TextureType::Normal => "texture_normal",
            TextureType::Height => "texture_height",
            TextureType::Shininess => "texture_shininess",
            TextureType::Opacity => "texture_opacity",
            TextureType::Displacement => "texture_displacement",
            TextureType::Lightmap => "texture_lightmap",
            TextureType::Reflection => "texture_reflection",
            TextureType::Unknown => "texture_unknown",
            TextureType::NoTexture => "texture_none",
        };
        text.to_owned()
    }

    /// The importer's code for this kind of texture.
    pub fn code(&self) -> (code: u32)
        ensures
            code == self.import_code(),
            code <= 12,
    {
        match self {
            TextureType::NoTexture => 0,
            TextureType::Diffuse => 1,
            TextureType::Specular => 2,
            TextureType::Ambient => 3,
            TextureType::Emissive => 4,
            TextureType::Height => 5,
            TextureType::Normal => 6,
            TextureType::Shininess => 7,
            TextureType::Opacity => 8,
            TextureType::Displacement => 9,
            TextureType::Lightmap => 10,
            TextureType::Reflection => 11,
            TextureType::Unknown => 12,
        }
    }

    /// The kind of texture that the importer knows by `code`; `Unknown` for a
    /// code that names none.
    pub fn convert_from(code: u32) -> (kind: TextureType)
        ensures
            code <= 12 ==> kind.import_code() == code,
            code > 12 ==> kind == TextureType::Unknown,
    {
        if code == 0 {
            TextureType::NoTexture
        } else if code == 1 {
            TextureType::Diffuse
        } else if code == 2 {
            TextureType::Specular
        } else if code == 3 {
            TextureType::Ambient
        } else if code == 4 {
            TextureType::Emissive
        } else if code == 5 {
            TextureType::Height
        } else if code == 6 {
            TextureType::Normal
        } else if code == 7 {
            TextureType::Shininess
        } else if code == 8 {
            TextureType::Opacity
        } else if code == 9 {
            TextureType::Displacement
        } else if code == 10 {
            TextureType::Lightmap
        } else if code == 11 {
            TextureType::Reflection
        } else {
            TextureType::Unknown
        }
    }
}

/// Converting a kind of texture to its code and back gives the same kind.
pub proof fn lemma_code_round_trip(kind: TextureType)
    ensures
        kind.import_code() <= 12,
        forall|other: TextureType| other.import_code() == kind.import_code() ==> other == kind,
{
}

#[derive(Debug, Clone, Copy, PartialEq, Eq, Structural)]
pub struct TextureConfig {
    pub texture_type: TextureType,
    pub filter: TextureFilter,
    pub wrap: TextureWrap,
    pub flip_v: bool,
    pub gamma_correction: bool,
}

impl Default for TextureConfig {
    fn default() -> (config: Self)
        ensures
            config == TextureConfig::initial(),
    {
        TextureConfig::new()
    }
}

impl TextureConfig {
    /// The settings that `new` starts from.
    pub open spec fn initial() -> TextureConfig {
        TextureConfig {
            texture_type: TextureType::Diffuse,
            filter: TextureFilter::Linear,
            wrap: TextureWrap::Clamp,
            flip_v: false,
            gamma_correction: false,
        }
    }

    pub fn new() -> (config: Self)
        ensures
            config == TextureConfig::initial(),
    {
        TextureConfig {
            texture_type: TextureType::Diffuse,
            filter: TextureFilter::Linear,
            wrap: TextureWrap::Clamp,
            flip_v: false,
            gamma_correction: false,
        }
    }

    pub fn set_type(self, texture_type: TextureType) -> (config: Self)
        ensures
            config == (TextureConfig { texture_type, ..self }),
    {
        let mut config = self;
        config.texture_type = texture_type;
        config
    }

    pub fn set_filter(self, filter_type: TextureFilter) -> (config: Self)
        ensures
            config == (TextureConfig { filter: filter_type, ..self }),
    {
        let mut config = self;
        config.filter = filter_type;
        config
    }

    pub fn set_wrap(self, wrap_type: TextureWrap) -> (config: Self)
        ensures
            config == (TextureConfig { wrap: wrap_type, ..self }),
    {
        let mut config = self;
        config.wrap = wrap_type;
        config
    }

    pub fn set_flipv(self, flip_v: bool) -> (config: Self)
        ensures
            config == (TextureConfig { flip_v, ..self }),
    {
        let mut config = self;
        config.flip_v = flip_v;
        config
    }

    pub fn set_gamma_correction(self, correct_gamma: bool) -> (config: Self)
        ensures
            config == (TextureConfig { gamma_correction: correct_gamma, ..self }),
    {
        let mut config = self;
        config.gamma_correction = correct_gamma;
        config
    }

    /// The formats for uploading an image of the given layout under these
    /// settings.
    pub open spec fn spec_upload_format(self, layout: PixelLayout) -> Option<UploadFormat> {
        match layout {
            PixelLayout::L8 => Some(UploadFormat { internal_format: GL_RED, data_format: GL_RED }),
            PixelLayout::Rgb8 => Some(
                UploadFormat {
                    internal_format: if self.gamma_correction {
                        GL_SRGB
                    } else {
                        GL_RGB
                    },
                    data_format: GL_RGB,
                },
            ),
            PixelLayout::Rgba8 => Some(
                UploadFormat {
                    internal_format: if self.gamma_correction {
                        GL_SRGB_ALPHA
                    } else {
                        GL_RGBA
                    },
                    data_format: GL_RGBA,
                },
            ),
            PixelLayout::Other => None,
        }
    }

    /// Chooses the storage and data formats for an image of the given layout:
    /// gamma correction selects the sRGB storage formats for colour images,
    /// and a layout without a mapping has no format.
    pub fn upload_format(&self, layout: PixelLayout) -> (format: Option<UploadFormat>)
        ensures
            format == self.spec_upload_format(layout),
            format.is_none() <==> layout == PixelLayout::Other,
    {
        match layout {
            PixelLayout::L8 => Some(UploadFormat { internal_format: GL_RED, data_format: GL_RED }),
            PixelLayout::Rgb8 => {
                let internal_format: u32 = if self.gamma_correction {
                    GL_SRGB
                } else {
                    GL_RGB
                };
                Some(UploadFormat { internal_format, data_format: GL_RGB })
            },
            PixelLayout::Rgba8 => {
                let internal_format: u32 = if self.gamma_correction {
                    GL_SRGB_ALPHA
                } else {
                    GL_RGBA
                };
                Some(UploadFormat { internal_format, data_format: GL_RGBA })
            },
            PixelLayout::Other => None,
        }
    }

    /// The wrap parameter handed to the graphics API for these settings.
    pub fn wrap_parameter(&self) -> (code: u32)
        ensures
            code == (match self.wrap {
                TextureWrap::Clamp => GL_CLAMP_TO_EDGE,
                TextureWrap::Repeat => GL_REPEAT,
            }),
    {
        match self.wrap {
            TextureWrap::Clamp => GL_CLAMP_TO_EDGE,
            TextureWrap::Repeat => GL_REPEAT,
        }
    }
}

} // verus!

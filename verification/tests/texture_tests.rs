use small_gl_core::sprite_model::{SpriteAnimationType, SpriteData, STEP_TIME};
use small_gl_core::texture::{
    PixelLayout, TextureConfig, TextureFilter, TextureType, TextureWrap, UploadFormat,
    GL_CLAMP_TO_EDGE, GL_RED, GL_REPEAT, GL_RGB, GL_RGBA, GL_SRGB, GL_SRGB_ALPHA,
};

#[test]
fn new_config_has_the_usual_settings() {
    let config = TextureConfig::new();
    assert_eq!(config.texture_type, TextureType::Diffuse);
    assert_eq!(config.filter, TextureFilter::Linear);
    assert_eq!(config.wrap, TextureWrap::Clamp);
    assert!(!config.flip_v);
    assert!(!config.gamma_correction);
    assert_eq!(TextureConfig::default(), config);
}

#[test]
fn each_setter_changes_its_own_setting() {
    let base = TextureConfig::new();
    assert_eq!(
        base.set_type(TextureType::Normal),
        TextureConfig { texture_type: TextureType::Normal, ..base }
    );
    assert_eq!(
        base.set_filter(TextureFilter::Nearest),
        TextureConfig { filter: TextureFilter::Nearest, ..base }
    );
    assert_eq!(base.set_wrap(TextureWrap::Repeat), TextureConfig { wrap: TextureWrap::Repeat, ..base });
    assert_eq!(base.set_flipv(true), TextureConfig { flip_v: true, ..base });
    assert_eq!(
        base.set_gamma_correction(true),
        TextureConfig { gamma_correction: true, ..base }
    );
    let all = base
        .set_type(TextureType::Height)
        .set_filter(TextureFilter::Nearest)
        .set_wrap(TextureWrap::Repeat)
        .set_flipv(true)
        .set_gamma_correction(true);
    assert_eq!(
        all,
        TextureConfig {
            texture_type: TextureType::Height,
            filter: TextureFilter::Nearest,
            wrap: TextureWrap::Repeat,
            flip_v: true,
            gamma_correction: true,
        }
    );
}

#[test]
fn texture_kinds_have_their_uniform_names() {
    let expected = [
        (TextureType::Diffuse, "texture_diffuse"),
        (TextureType::Specular, "texture_specular"),
        (TextureType::Ambient, "texture_ambient"),
        (TextureType::Emissive, "texture_emissive"),
        (TextureType::Normal, "texture_normal"),
        (TextureType::Height, "texture_height"),
        (TextureType::Shininess, "texture_shininess"),
        (TextureType::Opacity, "texture_opacity"),
        (TextureType::Displacement, "texture_displacement"),
        (TextureType::Lightmap, "texture_lightmap"),
        (TextureType::Reflection, "texture_reflection"),
        (TextureType::Unknown, "texture_unknown"),
        (TextureType::NoTexture, "texture_none"),
    ];
    for (kind, name) in expected {
        assert_eq!(kind.to_string(), name);
    }
}

#[test]
fn texture_kinds_convert_to_codes_and_back() {
    let kinds = [
        TextureType::NoTexture,
        TextureType::Diffuse,
        TextureType::Specular,
        TextureType::Ambient,
        TextureType::Emissive,
        TextureType::Height,
        TextureType::Normal,
        TextureType::Shininess,
        TextureType::Opacity,
        TextureType::Displacement,
        TextureType::Lightmap,
        TextureType::Reflection,
        TextureType::Unknown,
    ];
    for (code, kind) in kinds.iter().enumerate() {
        assert_eq!(kind.code(), code as u32);
        assert_eq!(TextureType::convert_from(code as u32), *kind);
    }
    assert_eq!(TextureType::convert_from(13), TextureType::Unknown);
    assert_eq!(TextureType::convert_from(u32::MAX), TextureType::Unknown);
}

#[test]
fn upload_formats_follow_layout_and_gamma() {
    let plain = TextureConfig::new();
    let gamma = plain.set_gamma_correction(true);
    let format = |internal_format, data_format| Some(UploadFormat { internal_format, data_format });
    assert_eq!(plain.upload_format(PixelLayout::L8), format(GL_RED, GL_RED));
    assert_eq!(gamma.upload_format(PixelLayout::L8), format(GL_RED, GL_RED));
    assert_eq!(plain.upload_format(PixelLayout::Rgb8), format(GL_RGB, GL_RGB));
    assert_eq!(gamma.upload_format(PixelLayout::Rgb8), format(GL_SRGB, GL_RGB));
    assert_eq!(plain.upload_format(PixelLayout::Rgba8), format(GL_RGBA, GL_RGBA));
    assert_eq!(gamma.upload_format(PixelLayout::Rgba8), format(GL_SRGB_ALPHA, GL_RGBA));
    assert_eq!(plain.upload_format(PixelLayout::Other), None);
    assert_eq!((GL_RED, GL_RGB, GL_RGBA), (0x1903, 0x1907, 0x1908));
    assert_eq!((GL_SRGB, GL_SRGB_ALPHA), (0x8C40, 0x8C42));
}

#[test]
fn wrap_parameter_follows_the_setting() {
    assert_eq!(TextureConfig::new().wrap_parameter(), GL_CLAMP_TO_EDGE);
    assert_eq!(TextureConfig::new().set_wrap(TextureWrap::Repeat).wrap_parameter(), GL_REPEAT);
    assert_eq!((GL_CLAMP_TO_EDGE, GL_REPEAT), (0x812F, 0x2901));
}

fn sprite(animation_type: SpriteAnimationType) -> SpriteData {
    SpriteData { animation_type, num_steps: 3, step_timer: 0, step_count: 0, step_increment: 1 }
}

#[test]
fn sprite_runs_back_and_forth() {
    let mut data = sprite(SpriteAnimationType::BackAndForth);
    let mut seen = vec![];
    for _ in 0..9 {
        data.update(STEP_TIME as u64);
        seen.push(data.step_count);
    }
    assert_eq!(seen, vec![1, 2, 1, 0, 1, 2, 1, 0, 1]);
}

#[test]
fn sprite_steps_only_when_its_timer_has_run_out() {
    let mut data = sprite(SpriteAnimationType::BackAndForth);
    data.update(50_000);
    assert_eq!((data.step_count, data.step_timer), (1, 150_000));
    data.update(100_000);
    assert_eq!((data.step_count, data.step_timer), (1, 50_000));
    data.update(100_000);
    assert_eq!((data.step_count, data.step_timer), (1, -50_000));
    data.update(0);
    assert_eq!((data.step_count, data.step_timer, data.step_increment), (2, 200_000, 1));
    data.update(u64::MAX);
    assert_eq!(data.step_timer, i64::MIN);
    data.update(1);
    assert_eq!((data.step_count, data.step_timer, data.step_increment), (1, 199_999, -1));
}

#[test]
fn other_sprites_stay_as_they_are() {
    for kind in [SpriteAnimationType::Still, SpriteAnimationType::Once, SpriteAnimationType::Cycle] {
        let mut data = sprite(kind);
        data.update(1_000_000);
        assert_eq!(data, sprite(kind));
    }
}

use veila::common::secret::Secret;
use veila::common::time::{Moment, Span};
use veila::renderer::frame::{ClearColor, FrameSize};
use veila::renderer::shape::Rect;
use veila::common::ipc::FingerprintStatus;
use veila::renderer::shape::BorderStyle;
use veila::ui::emergency::{
    emergency_background, scaled, EmergencyInput, EmergencyLayout, MaskedInputStyle,
};
use veila::ui::floating::{
    render_floating_header_widgets, render_floating_identity_widgets,
    render_floating_weather_widgets, FloatingWeather, FloatingWidget, PlacedWidget,
};
use veila::ui::overlay::{
    auth_dirty_rect, floating_status_origin, rejected_status_text, render_auth_or_input_group,
    render_floating_input_widgets, render_identity_group,
    reveal_toggle_rect_for_frame, section_tops, union_rect, DrawStep, GridLine,
    InputRightAdornment, LayoutRole, SceneLayout,
    SceneSection, SceneWidget, SectionDraw, SectionGroup,
};
use veila::ui::shell::{
    current_retry_seconds,
    PreviewGrid, ShellAction, ShellAnimationUpdate, ShellCore, ShellKey, ShellMode, ShellState,
    ShellStatus, ShellTheme,
};
use veila::ui::text_cache::{
    inner_width, SceneTextInputs, TextBlock, TextBounds, TextLayoutCache, TextStyle,
};

fn white() -> ClearColor {
    ClearColor::opaque(255, 255, 255)
}

fn now() -> Moment {
    Moment { nanos: 5_000_000_000 }
}

fn after_millis(millis: u64) -> Moment {
    now().plus(Span::from_millis(millis))
}

fn shell() -> ShellState {
    ShellState {
        secret: Secret::new(),
        core: ShellCore {
            mode: ShellMode::Rich,
            secret_selected: false,
            caps_lock_active: false,
            fingerprint_status: None,
            reveal_secret: false,
            auth_revealed: true,
            reveal_toggle_hovered: false,
            reveal_toggle_pressed: false,
            power_confirmation: None,
            static_scene_revision: 7,
            focused: true,
            status: ShellStatus::Idle,
            now_playing_changed_at: None,
            preview_grid_enabled: true,
            render_scale: 1,
            theme: ShellTheme {
                background: ClearColor::opaque(1, 2, 3),
                now_playing_fade_duration_ms: Some(200),
                input_on_demand: false,
                status_enabled: true,
                status_inline: true,
                eye_enabled: true,
                caps_lock_enabled: true,
                avatar_enabled: true,
                avatar_offset_y: Some(-4),
                username_offset_y: None,
                visual_layers: false,
                grid: Some(PreviewGrid {
                    cell_size: 10,
                    color: white(),
                    major_every: 2,
                    major_color: ClearColor::opaque(9, 9, 9),
                }),
            },
        },
        text_layout_cache: TextLayoutCache::new(),
    }
}

fn type_text(shell: &mut ShellState, text: &str) {
    for character in text.chars() {
        shell.handle_key(ShellKey::Character(character), now());
    }
}

#[test]
fn forgetting_the_revealed_secret_drops_the_cached_plaintext() {
    let mut cache = TextLayoutCache::default();
    let layout = |_: &str, _: TextStyle, _: u32, _: u32| TextBlock { width: 1, height: 1, glyphs: 1 };
    cache.revealed_secret_block(
        "hunter2",
        TextStyle { color: white(), size: 2, line_spacing: 0 },
        512,
        &layout,
    );
    assert!(cache.revealed_secret.key.is_some());

    cache.forget_revealed_secret();

    assert!(
        cache.revealed_secret.key.is_none(),
        "cache key still holds the revealed password"
    );
    assert!(cache.revealed_secret.block.is_none());
}

#[test]
fn unchanged_texts_are_laid_out_once() {
    let mut cache = TextLayoutCache::new();
    let calls = std::cell::Cell::new(0u64);
    let layout = |text: &str, _: TextStyle, _: u32, _: u32| {
        calls.set(calls.get() + 1);
        TextBlock { width: text.len() as u32, height: 1, glyphs: calls.get() }
    };
    let style = TextStyle { color: white(), size: 2, line_spacing: 0 };
    let first = cache.revealed_secret_block("abc", style, 100, &layout);
    let second = cache.revealed_secret_block("abc", style, 100, &layout);
    assert_eq!(first, second);
    assert_eq!(calls.get(), 1);
    let third = cache.revealed_secret_block("abcd", style, 100, &layout);
    assert_eq!((third.width, calls.get()), (4, 2));
    cache.revealed_secret_block("abcd", style, 99, &layout);
    assert_eq!(calls.get(), 3);
}

#[test]
fn typed_password_is_submitted_with_enter() {
    let mut shell = shell();
    type_text(&mut shell, "hunter2");
    assert_eq!(shell.secret.expose(), "hunter2");
    shell.handle_key(ShellKey::Backspace, now());
    assert_eq!(shell.secret.expose(), "hunter");
    match shell.handle_key(ShellKey::Enter, now()) {
        ShellAction::Submit(secret) => assert_eq!(secret.expose(), "hunter"),
        other => panic!("{other:?}"),
    }
    assert!(matches!(shell.core.status, ShellStatus::Pending { .. }));
    shell.authentication_rejected(Some(2_000), None, now());
    assert_eq!(shell.handle_key(ShellKey::Enter, after_millis(1_999)), ShellAction::Nothing);
    assert!(matches!(
        shell.handle_key(ShellKey::Enter, after_millis(2_000)),
        ShellAction::Submit(_)
    ));
}

#[test]
fn typing_over_a_selection_replaces_it() {
    let mut shell = shell();
    type_text(&mut shell, "old");
    shell.handle_key(ShellKey::SelectAll, now());
    assert!(shell.core.secret_selected);
    type_text(&mut shell, "n");
    assert_eq!(shell.secret.expose(), "n");
    shell.handle_key(ShellKey::Clear, now());
    assert!(shell.secret.is_empty());
}

#[test]
fn input_length_is_limited() {
    let mut shell = shell();
    type_text(&mut shell, &"x".repeat(500));
    let full = shell.secret.char_count();
    type_text(&mut shell, "y");
    assert_eq!(shell.secret.char_count(), full);
    assert!(full < 500);
}

#[test]
fn refused_password_is_forgotten_and_blocks_until_its_time() {
    let mut shell = shell();
    type_text(&mut shell, "wrong");
    shell.handle_key(ShellKey::Enter, now());
    shell.authentication_rejected(Some(1_500), Some(3), now());
    assert!(shell.secret.is_empty());
    assert!(matches!(
        shell.core.status,
        ShellStatus::Rejected { displayed_retry_seconds: Some(2), failed_attempts: Some(3), .. }
    ));
    let update = shell.advance_animated_state_update(false, after_millis(600));
    assert_ne!(update, ShellAnimationUpdate::Nothing);
    assert!(matches!(
        shell.core.status,
        ShellStatus::Rejected { displayed_retry_seconds: Some(1), .. }
    ));
    shell.authentication_busy();
    assert_eq!(shell.core.status, ShellStatus::Idle);
}

#[test]
fn refusals_are_put_into_words() {
    assert_eq!(
        rejected_status_text(Some(3), Some(2)),
        "Authentication failed (3 failed attempts), retry in 2s"
    );
    assert_eq!(rejected_status_text(Some(1), None), "Authentication failed (1 failed attempt)");
    assert_eq!(rejected_status_text(None, Some(0)), "Authentication failed");
}

#[test]
fn fades_tell_how_far_they_are() {
    let mut shell = shell();
    assert_eq!(shell.now_playing_fade_progress(now()), None);
    shell.core.now_playing_changed_at = Some(now());
    assert_eq!(shell.now_playing_fade_progress(after_millis(100)), Some(50));
    assert!(shell.animation_poll_interval().nanos <= Span::from_millis(1_000).nanos);
}

#[test]
fn frames_are_static_then_dynamic() {
    let shell = shell();
    let whole = shell.render();
    assert_eq!(whole[0], DrawStep::Clear(ClearColor::opaque(1, 2, 3)));
    let mut parts = vec![whole[0], DrawStep::StaticBackdrops];
    parts.extend(shell.render_static_overlay());
    parts.extend(shell.render_dynamic_overlay());
    assert_eq!(whole, parts);
    assert_eq!(whole[2], DrawStep::Layers);
    assert!(!shell.render_static_overlay_without_layers().contains(&DrawStep::Layers));
    let plan = shell.render_dynamic_overlay_scaled(2);
    assert_eq!((plan.scale, plan.rescaled), (2, true));
    assert_eq!(plan.steps, shell.render_dynamic_overlay());
}

#[test]
fn emergency_frames_need_nothing_but_the_prompt() {
    let mut shell = shell();
    shell.activate_emergency();
    assert!(shell.emergency_active());
    assert_eq!(shell.static_scene_revision(), 8);
    assert_eq!(shell.render(), shell.render_emergency());
    assert_eq!(
        shell.render_emergency(),
        vec![
            DrawStep::Clear(ClearColor::opaque(12, 14, 18)),
            DrawStep::EmergencyStatic,
            DrawStep::EmergencyDynamic
        ]
    );
    assert_eq!(shell.render_emergency_scaled(1).scale, 1);
    assert_eq!(shell.render_emergency_overlay_scaled(3).scale, 3);
    assert_eq!(
        shell.render_emergency_static_overlay_scaled(2).steps,
        vec![DrawStep::EmergencyStatic]
    );
    assert_eq!(
        shell.render_emergency_dynamic_overlay_scaled(2).steps,
        vec![DrawStep::EmergencyDynamic]
    );
}

#[test]
fn emergency_prompt_is_centered() {
    let shell = shell();
    let size = FrameSize::new(1920, 1080);
    let layout = EmergencyLayout::new(size, 1);
    assert_eq!(layout.center_x, 960);
    assert_eq!(layout.input.x + layout.input.width / 2, 960);
    let fitted = |text: &str, style: TextStyle, _: u32| TextBlock {
        width: text.len() as u32 * style.size / 2,
        height: style.size,
        glyphs: 0,
    };
    let drawn = shell.render_emergency_static_overlay(size, &fitted);
    assert_eq!(drawn.title.block.height, 28);
    assert_eq!(drawn.title.x, 960 - drawn.title.block.width as i32 / 2);
    assert_eq!(drawn.input, layout.input);
    let dynamic = shell.render_emergency_dynamic_overlay(size, &fitted);
    assert!(matches!(dynamic.input, EmergencyInput::Placeholder { .. }) || dynamic.status.is_none());
}

#[test]
fn sections_are_stacked() {
    let section = |height, gap_after| SceneSection { widget: SceneWidget::Input, height, gap_after };
    assert_eq!(section_tops(&[section(10, 5), section(20, 0), section(1, 1)], 100), vec![100, 115, 135]);
    let mut shell = shell();
    let widget = |widget| SceneSection { widget, height: 1, gap_after: 0 };
    let clock = widget(SceneWidget::Clock);
    assert_eq!(shell.render_section(clock, 7, true), (SectionDraw::HeroClock, 7));
    assert_eq!(shell.render_section(clock, 7, false), (SectionDraw::Nothing, 7));
    let avatar = widget(SceneWidget::Avatar);
    assert_eq!(shell.render_section(avatar, 7, false), (SectionDraw::Avatar, 3));
    shell.core.theme.avatar_enabled = false;
    assert_eq!(shell.render_section(avatar, 7, false), (SectionDraw::Nothing, 7));
    let username = widget(SceneWidget::Username);
    assert_eq!(shell.render_section(username, 7, false), (SectionDraw::Username, 7));
    assert_eq!(render_identity_group(Some(4)), Some((SectionGroup::Identity, 4)));
    assert_eq!(render_identity_group(None), None);
    assert_eq!(render_auth_or_input_group(Some(4), 9), (SectionGroup::Input, 9));
    assert_eq!(
        render_auth_or_input_group(None, 9),
        (SectionGroup::Role(LayoutRole::Auth), 9)
    );
}

#[test]
fn floating_widgets_stand_at_their_places() {
    let place = Rect::new(3, 4, 20, 10);
    assert_eq!(
        render_floating_header_widgets(Some(place), None),
        vec![PlacedWidget { widget: FloatingWidget::Clock, x: 3, y: 4 }]
    );
    assert_eq!(
        render_floating_identity_widgets(Some(place), 20, Some(place)),
        vec![
            PlacedWidget { widget: FloatingWidget::Avatar, x: 13, y: 4 },
            PlacedWidget { widget: FloatingWidget::Username, x: 3, y: 4 },
        ]
    );
    let weather = FloatingWeather {
        has_icon: true,
        icon_place: None,
        has_temperature: true,
        temperature_place: Some(place),
        has_location: false,
        location_place: Some(place),
    };
    assert_eq!(
        render_floating_weather_widgets(Some(weather)),
        vec![PlacedWidget { widget: FloatingWidget::WeatherTemperature, x: 3, y: 4 }]
    );
    assert!(render_floating_weather_widgets(None).is_empty());
}

#[test]
fn dirty_parts_grow_to_hold_each_other() {
    let a = Rect::new(0, 0, 2, 2);
    let b = Rect::new(4, 4, 2, 2);
    assert_eq!(union_rect(None, Some(a)), Some(a));
    assert_eq!(union_rect(Some(a), Some(b)), Some(Rect::new(0, 0, 6, 6)));
    assert_eq!(union_rect(None, None), None);
}

#[test]
fn preview_grid_has_major_lines() {
    let shell = shell();
    let lines = shell.render_preview_grid_overlay(40).expect("grid");
    let places: Vec<(i32, bool)> = lines.iter().map(|line| (line.at, line.major)).collect();
    assert_eq!(places, vec![(20, true), (30, false), (10, false), (0, true)]);
    let mut hidden = shell;
    hidden.core.preview_grid_enabled = false;
    assert!(hidden.render_preview_grid_overlay(40).is_none());
}

#[test]
fn input_shows_what_is_going_on() {
    let mut shell = shell();
    let rect = Rect::new(0, 0, 300, 50);
    let idle = shell.render_input_widget(rect, true, now());
    assert_eq!((idle.secret_len, idle.text_width), (0, 208));
    assert!(!idle.draw_shell && idle.draw_content && idle.inline_status.is_none());
    assert_eq!(
        idle.right_adornment,
        InputRightAdornment::Toggle { hovered: false, pressed: false, reveal_secret: false }
    );
    assert_eq!(shell.status_text(), None);
    shell.authentication_rejected(Some(2_000), None, now());
    let refused = shell.render_input_widget(rect, true, now());
    assert!(refused.draw_shell);
    assert_eq!(refused.inline_status, shell.inline_input_status_text());
    assert_eq!(shell.pending_spinner_phase(now()), None);
    shell.core.caps_lock_active = true;
    assert_eq!(
        shell.render_input_widget(rect, false, now()).right_adornment,
        InputRightAdornment::CapsLock
    );
}

#[test]
fn floating_parts_are_redrawn_with_the_prompt() {
    let layout = SceneLayout {
        floating_input: true,
        input_position: Some(Rect::new(100, 50, 200, 40)),
        input_at_bottom: false,
        floating_status: Some((60, 10)),
        status_position: None,
        status_follows_input: true,
        auth_center_x: 200,
        auth_y: 0,
        input_left: 0,
        input_width: 200,
        input_height: 40,
        sections: vec![],
    };
    let origin = floating_status_origin(&layout, 60, 10);
    assert_eq!(origin, Some((170, 104)));
    let dirty = auth_dirty_rect(&layout, FrameSize::new(400, 300)).expect("dirty part");
    assert!(dirty.x <= 100 && dirty.right() >= 300);
    assert!(dirty.y <= 50 && dirty.bottom() >= 114);
    assert_eq!(auth_dirty_rect(&layout, FrameSize::new(50, 20)), None);
}

fn stacked_layout() -> SceneLayout {
    SceneLayout {
        floating_input: false,
        input_position: None,
        input_at_bottom: false,
        floating_status: None,
        status_position: None,
        status_follows_input: false,
        auth_center_x: 200,
        auth_y: 100,
        input_left: 120,
        input_width: 160,
        input_height: 40,
        sections: vec![
            SceneSection { widget: SceneWidget::Avatar, height: 50, gap_after: 10 },
            SceneSection { widget: SceneWidget::Input, height: 40, gap_after: 5 },
            SceneSection {
                widget: SceneWidget::Status { width: 61, height: 12 },
                height: 12,
                gap_after: 0,
            },
        ],
    }
}

#[test]
fn stacked_parts_are_redrawn_with_the_prompt() {
    let layout = stacked_layout();
    let size = FrameSize::new(400, 300);
    // The input at (120, 160), grown by 8, and the status at (170, 205), joined and grown by 12.
    let dirty = Some(Rect::new(100, 140, 200, 89));
    assert_eq!(auth_dirty_rect(&layout, size), dirty);
    let covers = |part: Rect, x: i32, y: i32| {
        part.x <= x && x < part.right() && part.y <= y && y < part.bottom()
    };
    for (x, y) in [(120, 160), (279, 199), (170, 205), (230, 216)] {
        assert!(covers(dirty.expect("dirty part"), x, y));
    }
    let mut shell = shell();
    assert_eq!(shell.auth_dirty_rect_scaled(&layout, size), dirty);
    shell.activate_emergency();
    assert_eq!(shell.auth_dirty_rect_scaled(&layout, size), None);
    assert_eq!(
        auth_dirty_rect(&layout, FrameSize::new(150, 150)),
        Some(Rect::new(100, 140, 50, 10))
    );
}

#[test]
fn toggle_stands_in_the_first_input() {
    let mut layout = stacked_layout();
    assert_eq!(
        reveal_toggle_rect_for_frame(&layout, true),
        Some(Rect::new(120, 160, 160, 40))
    );
    assert_eq!(reveal_toggle_rect_for_frame(&layout, false), None);
    layout.floating_input = true;
    assert_eq!(reveal_toggle_rect_for_frame(&layout, true), None);
    layout.input_position = Some(Rect::new(1, 2, 3, 4));
    assert_eq!(reveal_toggle_rect_for_frame(&layout, true), layout.input_position);
}

#[test]
fn sections_are_drawn_where_they_are_stacked() {
    let sections = stacked_layout().sections;
    assert_eq!(
        shell().render_role(&sections, 100, false),
        vec![
            (SectionDraw::Avatar, 96),
            (SectionDraw::Input, 160),
            (SectionDraw::Nothing, 205)
        ]
    );
    assert_eq!(
        shell().render_role(&sections, 100, true),
        vec![
            (SectionDraw::Nothing, 100),
            (SectionDraw::Input, 160),
            (SectionDraw::CenteredStatus, 205)
        ]
    );
}

#[test]
fn floating_status_is_drawn_in_the_dynamic_pass() {
    let mut layout = stacked_layout();
    layout.floating_input = true;
    layout.input_position = Some(Rect::new(100, 50, 200, 40));
    layout.floating_status = Some((60, 10));
    layout.status_position = Some((7, 9));
    assert_eq!(
        render_floating_input_widgets(&layout, true),
        (Some(Rect::new(100, 50, 200, 40)), Some((7, 9)))
    );
    assert_eq!(render_floating_input_widgets(&layout, false).1, None);
}

#[test]
fn grid_lines_cross_the_frame() {
    let grid = shell().core.theme.grid.expect("grid");
    assert_eq!(
        grid.draw_grid_vertical_line(GridLine { at: 30, major: true }, 200),
        (Rect::new(30, 0, 1, 200), ClearColor::opaque(9, 9, 9))
    );
    assert_eq!(
        grid.draw_grid_horizontal_line(GridLine { at: 40, major: false }, 300),
        (Rect::new(0, 40, 300, 1), white())
    );
}

#[test]
fn scaled_plans_draw_the_same_steps() {
    let mut shell = shell();
    assert!(!shell.has_visual_layers());
    assert!(!shell.input_shell_is_dynamic());
    assert_eq!(shell.render_scaled(2).steps, shell.render());
    assert_eq!(shell.render_overlay_scaled(2).steps, shell.render_overlay());
    assert_eq!(shell.render_static_overlay_scaled(2).steps, shell.render_static_overlay());
    assert_eq!(
        shell.render_static_overlay_without_layers_scaled(2).steps,
        shell.render_static_overlay_without_layers()
    );
    let unscaled = shell.render_overlay_scaled(0);
    assert_eq!((unscaled.scale, unscaled.rescaled), (1, false));
    let dirty = shell.render_auth_dirty_overlay_scaled(1);
    assert!(dirty.steps.len() < shell.render_dynamic_overlay().len());
    shell.activate_emergency();
    let plain = shell.render_scaled(2);
    assert_eq!((plain.scale, plain.rescaled), (2, false));
    assert_eq!(
        shell.render_emergency_overlay(),
        vec![DrawStep::EmergencyStatic, DrawStep::EmergencyDynamic]
    );
    assert_eq!(shell.render_overlay(), shell.render_emergency_overlay());
}

#[test]
fn emergency_looks_follow_the_status() {
    let mut shell = shell();
    assert_eq!(emergency_background(), ClearColor::opaque(12, 14, 18));
    assert_eq!((scaled(16, 3), scaled(16, 0)), (48, 16));
    assert_eq!(
        shell.emergency_input_style().border,
        Some(BorderStyle::new(ClearColor::rgba(150, 164, 184, 184), 2))
    );
    assert_eq!(shell.emergency_status_text(), None);
    let base = MaskedInputStyle {
        color: white(),
        bullet_size: 8,
        spacing: 6,
        horizontal_padding: 1,
    };
    shell.core.render_scale = 2;
    let mask = shell.emergency_mask_style(base);
    assert_eq!((mask.bullet_size, mask.spacing, mask.horizontal_padding), (16, 12, 44));
    assert_ne!(mask.color, white().with_alpha(0));
    shell.authentication_rejected(Some(2_000), None, now());
    assert_eq!(shell.emergency_status_color(), ClearColor::rgba(248, 113, 113, 230));
    assert_eq!(
        shell.emergency_input_style().border,
        Some(BorderStyle::new(ClearColor::rgba(248, 113, 113, 230), 4))
    );
    assert!(shell.emergency_status_text().is_some());
}

#[test]
fn shell_reports_news() {
    let mut shell = shell();
    assert!(shell.input_visible());
    assert!(shell.set_fingerprint_status(Some(FingerprintStatus::Scanning)));
    assert!(!shell.set_fingerprint_status(Some(FingerprintStatus::Scanning)));
    assert!(shell.advance_animated_state(true, now()));
    assert!(!shell.advance_animated_state(false, now()));
    assert_eq!(current_retry_seconds(Some(after_millis(1_001)), now()), Some(2));
    assert_eq!(current_retry_seconds(None, now()), None);
}

fn style(size: u32) -> TextStyle {
    TextStyle { color: white(), size, line_spacing: 0 }
}

fn scene_inputs() -> SceneTextInputs<'static> {
    SceneTextInputs {
        clock_style_mode: 1,
        clock_text: Some("12:30"),
        clock_secondary_text: None,
        clock_style: style(40),
        clock_meridiem_text: Some("PM"),
        clock_meridiem_style: style(12),
        clock_meridiem_x: Some(500),
        clock_meridiem_y: Some(-3),
        date_text: Some("Monday"),
        date_style: style(20),
        username_text: None,
        username_style: style(16),
        placeholder_text: Some("Password"),
        placeholder_style: style(14),
        status_text: None,
        status_style: style(12),
        weather_temperature_text: Some("21"),
        weather_temperature_style: style(30),
        weather_location_text: None,
        weather_location_style: style(10),
        weather_icon: Some(4),
        weather_icon_size: None,
        weather_icon_opacity: Some(80),
        content_width: 600,
        input_width: 300,
    }
}

#[test]
fn scene_texts_are_laid_out() {
    let mut cache = TextLayoutCache::new();
    let lines = std::cell::Cell::new(0u64);
    let line = |text: &str, style: TextStyle| {
        lines.set(lines.get() + 1);
        TextBlock { width: text.len() as u32 * 10, height: style.size, glyphs: 0 }
    };
    let wrapped = |_: &str, style: TextStyle, max_width: u32, min_scale: u32| TextBlock {
        width: max_width,
        height: style.size,
        glyphs: min_scale as u64,
    };
    let blocks = cache.scene_text_blocks(scene_inputs(), &line, &wrapped);
    let clock = blocks.clock.expect("clock");
    assert_eq!((clock.primary.width, clock.style), (50, 1));
    assert!(clock.secondary.is_none());
    assert_eq!(clock.meridiem.map(|block| block.height), Some(12));
    assert_eq!((clock.meridiem_x, clock.meridiem_y), (128, -3));
    assert_eq!(blocks.date.map(|block| block.width), Some(60));
    assert!(blocks.username.is_none() && blocks.status.is_none());
    assert_eq!(blocks.placeholder.map(|block| (block.width, block.glyphs)), Some((252, 1)));
    let weather = blocks.weather.expect("weather");
    let icon = weather.icon.expect("icon");
    assert_eq!((icon.asset, icon.size, icon.opacity), (4, 36, Some(80)));
    assert_eq!(lines.get(), 3);
    assert_eq!(cache.scene_text_blocks(scene_inputs(), &line, &wrapped), blocks);
    assert_eq!(lines.get(), 3);
    assert_eq!(inner_width(300, 48), 252);
}

#[test]
fn each_text_has_its_own_place_in_the_cache() {
    let mut cache = TextLayoutCache::new();
    let fitted = |text: &str, _: TextStyle, max_width: u32| TextBlock {
        width: max_width,
        height: text.len() as u32,
        glyphs: 1,
    };
    let wrapped = |text: &str, _: TextStyle, max_width: u32, _: u32| TextBlock {
        width: max_width,
        height: text.len() as u32,
        glyphs: 2,
    };
    assert_eq!(cache.input_status_block("wait", style(9), 50, &fitted).height, 4);
    assert_eq!(cache.keyboard_layout_block("us", style(9), 51, &wrapped).width, 51);
    assert_eq!(cache.power_status_block("off", style(9), 52, &fitted).height, 3);
    assert_eq!(cache.now_playing_title_block("title", style(9), 53, &fitted).height, 5);
    assert_eq!(cache.now_playing_artist_block("artist", style(9), 54, &fitted).width, 54);
    assert_eq!(
        cache.custom_layer_block(2, "layer", style(9), 55, true, &fitted, &wrapped).glyphs,
        1
    );
    assert_eq!(
        cache.custom_layer_block(2, "layer", style(9), 55, false, &fitted, &wrapped).glyphs,
        2
    );
    assert!(cache.custom_layers.len() >= 3);
    let measured = std::cell::Cell::new(0u32);
    let measure = |text: &str, _: TextStyle| {
        measured.set(measured.get() + 1);
        Some(TextBounds { left: 1, top: 2, width: text.len() as u32, height: 3 })
    };
    for _ in 0..2 {
        let bounds = cache.custom_layer_visible_bounds(1, "layer", style(9), &measure);
        assert_eq!(bounds.map(|bounds| bounds.width), Some(5));
    }
    assert_eq!(measured.get(), 1);
    assert_eq!(cache.input_status_block("wait", style(9), 50, &fitted).height, 4);
}

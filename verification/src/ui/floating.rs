//! Widgets that stand at a place of their own, apart from the stack.

use crate::renderer::shape;
use crate::renderer::shape::{clamp_i64, half_i64, Rect};
use vstd::prelude::*;

verus! {

/// What stands apart.
#[derive(Debug, Clone, Copy, PartialEq, Eq, Structural)]
pub enum FloatingWidget {
    Clock,
    Date,
    Avatar,
    Username,
    WeatherIcon,
    WeatherTemperature,
    WeatherLocation,
}

/// A widget and where its upper left corner is drawn; an avatar is drawn around a column.
#[derive(Debug, Clone, Copy, PartialEq, Eq, Structural)]
pub struct PlacedWidget {
    pub widget: FloatingWidget,
    pub x: i32,
    pub y: i32,
}

/// The widgets that are there, in the order they are drawn.
pub open spec fn placed(
    first: (FloatingWidget, Option<Rect>),
    second: (FloatingWidget, Option<Rect>),
) -> Seq<PlacedWidget> {
    placed_one(first.0, first.1) + placed_one(second.0, second.1)
}

pub open spec fn placed_one(widget: FloatingWidget, place: Option<Rect>) -> Seq<PlacedWidget> {
    match place {
        Some(rect) => seq![PlacedWidget { widget, x: rect.x, y: rect.y }],
        None => Seq::empty(),
    }
}

fn push_placed(widgets: &mut Vec<PlacedWidget>, widget: FloatingWidget, place: Option<Rect>)
    ensures
        final(widgets)@ == old(widgets)@ + placed_one(widget, place),
{
    if let Some(rect) = place {
        widgets.push(PlacedWidget { widget, x: rect.x, y: rect.y });
    }
    assert(widgets@ =~= old(widgets)@ + placed_one(widget, place));
}

/// Clock and date, each at its place if it stands apart.
pub fn render_floating_header_widgets(clock: Option<Rect>, date: Option<Rect>) -> (widgets: Vec<
    PlacedWidget,
>)
    ensures
        widgets@ == placed((FloatingWidget::Clock, clock), (FloatingWidget::Date, date)),
{
    let mut widgets: Vec<PlacedWidget> = Vec::new();
    push_placed(&mut widgets, FloatingWidget::Clock, clock);
    push_placed(&mut widgets, FloatingWidget::Date, date);
    assert(widgets@ =~= placed((FloatingWidget::Clock, clock), (FloatingWidget::Date, date)));
    widgets
}

/// The place of an avatar of a size by the column it is drawn around.
pub open spec fn avatar_place(avatar: Option<Rect>, size: i32) -> Option<Rect> {
    match avatar {
        Some(rect) => Some(Rect { x: shape::clamped(rect.x + shape::half(size as int)), ..rect }),
        None => None,
    }
}

/// Avatar and user name, each at its place if it stands apart.
pub fn render_floating_identity_widgets(
    avatar: Option<Rect>,
    avatar_size: i32,
    username: Option<Rect>,
) -> (widgets: Vec<PlacedWidget>)
    ensures
        widgets@ == placed(
            (FloatingWidget::Avatar, avatar_place(avatar, avatar_size)),
            (FloatingWidget::Username, username),
        ),
{
    let centered = match avatar {
        Some(rect) => Some(
            Rect {
                x: clamp_i64(rect.x as i64 + half_i64(avatar_size as i64)),
                y: rect.y,
                width: rect.width,
                height: rect.height,
            },
        ),
        None => None,
    };
    let mut widgets: Vec<PlacedWidget> = Vec::new();
    push_placed(&mut widgets, FloatingWidget::Avatar, centered);
    push_placed(&mut widgets, FloatingWidget::Username, username);
    assert(widgets@ =~= placed(
        (FloatingWidget::Avatar, avatar_place(avatar, avatar_size)),
        (FloatingWidget::Username, username),
    ));
    widgets
}

/// The parts of the weather that are there, and where each stands if it stands apart.
#[derive(Debug, Clone, Copy, PartialEq, Eq, Structural)]
pub struct FloatingWeather {
    pub has_icon: bool,
    pub icon_place: Option<Rect>,
    pub has_temperature: bool,
    pub temperature_place: Option<Rect>,
    pub has_location: bool,
    pub location_place: Option<Rect>,
}

/// A place for something that is there.
pub open spec fn place_if(there: bool, place: Option<Rect>) -> Option<Rect> {
    if there {
        place
    } else {
        None
    }
}

/// The weather, each part at its place if it is there and has one.
pub fn render_floating_weather_widgets(weather: Option<FloatingWeather>) -> (widgets: Vec<
    PlacedWidget,
>)
    ensures
        widgets@ == match weather {
            Some(weather) => placed_one(
                FloatingWidget::WeatherIcon,
                place_if(weather.has_icon, weather.icon_place),
            ) + placed_one(
                FloatingWidget::WeatherTemperature,
                place_if(weather.has_temperature, weather.temperature_place),
            ) + placed_one(
                FloatingWidget::WeatherLocation,
                place_if(weather.has_location, weather.location_place),
            ),
            None => Seq::empty(),
        },
{
    let mut widgets: Vec<PlacedWidget> = Vec::new();
    assert(widgets@ =~= Seq::empty());
    if let Some(weather) = weather {
        if weather.has_icon {
            push_placed(&mut widgets, FloatingWidget::WeatherIcon, weather.icon_place);
        }
        if weather.has_temperature {
            push_placed(
                &mut widgets,
                FloatingWidget::WeatherTemperature,
                weather.temperature_place,
            );
        }
        if weather.has_location {
            push_placed(&mut widgets, FloatingWidget::WeatherLocation, weather.location_place);
        }
        assert(widgets@ =~= placed_one(
            FloatingWidget::WeatherIcon,
            place_if(weather.has_icon, weather.icon_place),
        ) + placed_one(
            FloatingWidget::WeatherTemperature,
            place_if(weather.has_temperature, weather.temperature_place),
        ) + placed_one(
            FloatingWidget::WeatherLocation,
            place_if(weather.has_location, weather.location_place),
        ));
    }
    widgets
}

/// Each widget that has a place is drawn there, once, and one without a place is not drawn; the
/// first of two comes first.
pub proof fn law_placed_widgets_are_drawn_once(
    first: (FloatingWidget, Option<Rect>),
    second: (FloatingWidget, Option<Rect>),
)
    ensures
        ({
            let drawn = placed(first, second);
            &&& drawn.len() == (if first.1 is Some {
                1int
            } else {
                0
            }) + (if second.1 is Some {
                1int
            } else {
                0
            })
            &&& first.1 matches Some(rect) ==> drawn[0].widget == first.0 && drawn[0].x == rect.x
                && drawn[0].y == rect.y
            &&& second.1 matches Some(rect) ==> drawn.last().widget == second.0 && drawn.last().x
                == rect.x && drawn.last().y == rect.y
        }),
        place_if(true, first.1) == first.1,
        place_if(false, first.1) is None,
{
}

/// An avatar is drawn by its center: half its size to the right of its place, on the same height.
pub proof fn law_avatar_is_drawn_by_its_center(rect: Rect, size: i32)
    requires
        0 <= size,
        rect.x + size <= i32::MAX,
    ensures
        avatar_place(Some(rect), size) matches Some(place) && place.y == rect.y && -1 <= 2 * (place.x
            - rect.x) - size <= 0,
        avatar_place(None, size) is None,
{
}

} // verus!

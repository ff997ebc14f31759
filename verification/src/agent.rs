//! Drawing the agents of a simulation: a square body and a line that shows
//! the velocity.

use vstd::prelude::*;
use crate::binary32::{truncate, truncated, wrap_coordinate, wraps_to};
use crate::canvas::FfmpegDisplay;
use crate::color::Rgb;
use crate::frame::{lemma_repaints_compose, no_paint, over};
use crate::geometry::{Point, Size};
use crate::raster::{
    draw_line, draw_rect_centered, line_fits, line_in_range, line_layer, rect_fits, rect_in_range,
    rect_layer,
};
use crate::style::{ShapeStyle, StrokeStyle};

verus! {

/// An agent as the drawing pass sees it: its position in whole pixels, and
/// the offset, in pixels, from there to the tip of its velocity indicator.
#[derive(Clone, Copy, Debug, PartialEq, Eq, Structural)]
pub struct Agent {
    pub position: Point,
    pub velocity: Point,
}

/// How agents are drawn: the style of the body and the stroke of the
/// velocity indicator.
#[derive(Clone, Copy, Debug, PartialEq, Eq, Structural)]
pub struct AgentStyle {
    pub body: ShapeStyle,
    pub velocity: StrokeStyle,
}

/// The side of an agent's body in pixels.
pub const BODY_SIDE: u32 = 10;

/// The size of an agent's body.
pub open spec fn body_size() -> Size {
    Size { width: BODY_SIDE, height: BODY_SIDE }
}

impl Agent {
    /// Builds an agent.
    pub fn new(position: Point, velocity: Point) -> (agent: Agent)
        ensures
            agent == (Agent { position, velocity }),
    {
        Agent { position, velocity }
    }

    /// The agent as it is drawn, from the bit patterns of its
    /// single-precision position and of the offset to the tip of its
    /// velocity indicator: each of the four is truncated, not rounded, to
    /// whole pixels.
    pub fn from_bits(x: u32, y: u32, dx: u32, dy: u32) -> (agent: Agent)
        ensures
            agent.position.x == truncated(x),
            agent.position.y == truncated(y),
            agent.velocity.x == truncated(dx),
            agent.velocity.y == truncated(dy),
    {
        Agent {
            position: Point { x: truncate(x), y: truncate(y) },
            velocity: Point { x: truncate(dx), y: truncate(dy) },
        }
    }

    /// Whether the tip of the velocity indicator is a 32-bit coordinate.
    pub open spec fn tip_in_range(self) -> bool {
        &&& i32::MIN <= self.position.x + self.velocity.x <= i32::MAX
        &&& i32::MIN <= self.position.y + self.velocity.y <= i32::MAX
    }

    /// The tip of the velocity indicator: the position moved by the
    /// velocity offset.
    pub open spec fn tip(self) -> Point
        recommends
            self.tip_in_range(),
    {
        Point {
            x: (self.position.x + self.velocity.x) as i32,
            y: (self.position.y + self.velocity.y) as i32,
        }
    }

    /// The agents that can be drawn in `style`: body and indicator are
    /// within the rasterizer's range.
    pub open spec fn in_range(self, style: AgentStyle) -> bool {
        &&& self.tip_in_range()
        &&& rect_in_range(self.position, body_size(), style.body.stroke_width())
        &&& style.velocity.visible() && self.tip() != self.position ==> line_in_range(
            self.position,
            self.tip(),
            style.velocity.width as int,
        )
    }

    /// The paint of one agent: the velocity indicator over the body.
    pub open spec fn layer(self, style: AgentStyle) -> spec_fn(int, int) -> Option<Rgb> {
        over(
            line_layer(self.position, self.tip(), style.velocity),
            rect_layer(self.position, body_size(), style.body),
        )
    }

    /// Decides whether the agent can be drawn in `style`.
    pub fn fits(&self, style: &AgentStyle) -> (fits: bool)
        ensures
            fits == self.in_range(*style),
    {
        let tip_x: i64 = self.position.x as i64 + self.velocity.x as i64;
        let tip_y: i64 = self.position.y as i64 + self.velocity.y as i64;
        if tip_x < i32::MIN as i64 || tip_x > i32::MAX as i64 {
            return false;
        }
        if tip_y < i32::MIN as i64 || tip_y > i32::MAX as i64 {
            return false;
        }
        let body_width: u32 = match style.body.stroke {
            Some(s) => s.width,
            None => 0,
        };
        if !rect_fits(self.position, Size { width: BODY_SIDE, height: BODY_SIDE }, body_width) {
            return false;
        }
        if style.velocity.width == 0 || (self.velocity.x == 0 && self.velocity.y == 0) {
            return true;
        }
        let tip = Point { x: tip_x as i32, y: tip_y as i32 };
        line_fits(self.position, tip, style.velocity.width)
    }
}

/// Corrects the position of an agent that left a canvas of `width` by
/// `height` pixels, given and returned as the bit patterns of its
/// single-precision coordinates: each coordinate below zero goes to the far
/// edge, each above the far edge to zero.
pub fn correct_bounds(x: u32, y: u32, width: u32, height: u32) -> (out: (u32, u32))
    requires
        width < 0x100_0000,
        height < 0x100_0000,
    ensures
        wraps_to(x, width as nat, out.0),
        wraps_to(y, height as nat, out.1),
{
    (wrap_coordinate(x, width), wrap_coordinate(y, height))
}

/// The paint of a list of agents drawn in order: each agent over those
/// before it.
pub open spec fn agents_layer(agents: Seq<Agent>, style: AgentStyle) -> spec_fn(int, int) -> Option<
    Rgb,
>
    decreases agents.len(),
{
    if agents.len() == 0 {
        no_paint()
    } else {
        over(agents.last().layer(style), agents_layer(agents.drop_last(), style))
    }
}

/// Draws one agent: a square body of side ten around its position, then
/// the velocity indicator from the position to the tip.
pub fn draw_agent(display: &mut FfmpegDisplay, agent: Agent, style: AgentStyle)
    requires
        agent.in_range(style),
    ensures
        final(display)@.repaints(old(display)@, agent.layer(style)),
{
    draw_rect_centered(
        display,
        agent.position,
        Size { width: BODY_SIDE, height: BODY_SIDE },
        style.body,
    );
    let ghost mid = display@;
    let tip = Point {
        x: agent.position.x + agent.velocity.x,
        y: agent.position.y + agent.velocity.y,
    };
    draw_line(display, agent.position, tip, style.velocity);
    proof {
        lemma_repaints_compose(
            old(display)@,
            mid,
            display@,
            rect_layer(agent.position, body_size(), style.body),
            line_layer(agent.position, agent.tip(), style.velocity),
        );
    }
}

/// Draws every agent of `agents`, in order.
pub fn draw_agents(display: &mut FfmpegDisplay, agents: &Vec<Agent>, style: AgentStyle)
    requires
        forall|i: int| 0 <= i < agents@.len() ==> (#[trigger] agents@[i]).in_range(style),
    ensures
        final(display)@.repaints(old(display)@, agents_layer(agents@, style)),
{
    proof {
        use_type_invariant(&*display);
    }
    let n: usize = agents.len();
    let mut i: usize = 0;
    while i < n
        invariant
            n == agents@.len(),
            i <= n,
            forall|k: int| 0 <= k < agents@.len() ==> (#[trigger] agents@[k]).in_range(style),
            display@.repaints(old(display)@, agents_layer(agents@.take(i as int), style)),
        decreases n - i,
    {
        let ghost mid = display@;
        draw_agent(display, agents[i], style);
        proof {
            assert(agents@.take(i + 1).drop_last() =~= agents@.take(i as int));
            assert(agents@.take(i + 1).last() == agents@[i as int]);
            lemma_repaints_compose(
                old(display)@,
                mid,
                display@,
                agents_layer(agents@.take(i as int), style),
                agents@[i as int].layer(style),
            );
        }
        i += 1;
    }
    assert(agents@.take(n as int) =~= agents@);
}

} // verus!

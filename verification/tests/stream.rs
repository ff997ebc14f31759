use boidcast::agent::{draw_agent, draw_agents, Agent, AgentStyle};
use boidcast::canvas::FfmpegDisplay;
use boidcast::color::Rgb;
use boidcast::geometry::Point;
use boidcast::stream::{Action, Event, FrameStreamer, Phase};
use boidcast::style::{ShapeStyle, StrokeStyle};

const GREEN: Rgb = Rgb { r: 0, g: 255, b: 0 };
const RED: Rgb = Rgb { r: 255, g: 0, b: 0 };

fn style() -> AgentStyle {
    AgentStyle {
        body: ShapeStyle::new(Some(GREEN), Some(StrokeStyle::new(GREEN, 1))),
        velocity: StrokeStyle::new(RED, 2),
    }
}

#[test]
fn schedule_walks_the_phases_of_a_tick_in_order() {
    let mut streamer = FrameStreamer::new(2);
    assert_eq!(streamer.phase(), Phase::Idle);
    let mut actions = Vec::new();
    let mut phases = Vec::new();
    loop {
        let action = streamer.step(Event::Done);
        actions.push(action);
        phases.push(streamer.phase());
        if action == Action::Stop {
            break;
        }
    }
    assert_eq!(
        actions,
        vec![
            Action::Simulate,
            Action::CorrectBounds,
            Action::Draw,
            Action::Transmit,
            Action::Reset,
            Action::Simulate,
            Action::CorrectBounds,
            Action::Draw,
            Action::Transmit,
            Action::Reset,
            Action::Stop,
        ]
    );
    assert_eq!(
        phases,
        vec![
            Phase::Simulating,
            Phase::CorrectingBounds,
            Phase::Drawing,
            Phase::Transmitting,
            Phase::Resetting,
            Phase::Simulating,
            Phase::CorrectingBounds,
            Phase::Drawing,
            Phase::Transmitting,
            Phase::Resetting,
            Phase::Terminal,
        ]
    );
    assert_eq!(streamer.frames_sent(), 2);
    assert_eq!(streamer.ticks_completed(), 2);
    assert!(!streamer.has_failed());
}

#[test]
fn run_of_no_ticks_stops_at_once() {
    let mut streamer = FrameStreamer::new(0);
    assert_eq!(streamer.step(Event::Done), Action::Stop);
    assert_eq!(streamer.phase(), Phase::Terminal);
    assert_eq!(streamer.frames_sent(), 0);
    assert!(!streamer.has_failed());
}

#[test]
fn run_of_n_ticks_sends_n_frames_of_fixed_length() {
    let ticks = 7u64;
    let mut display = FfmpegDisplay::new(32, 24);
    let mut streamer = FrameStreamer::new(ticks);
    let mut agent = Agent::new(Point::new(3, 3), Point::new(2, 1));
    let mut lengths = Vec::new();
    let mut sink = Vec::new();
    let mut steps = 0u64;
    let mut action = streamer.step(Event::Done);
    steps += 1;
    while action != Action::Stop {
        match action {
            Action::Simulate => agent.position = Point::new(agent.position.x + 4, agent.position.y + 3),
            Action::CorrectBounds => {}
            Action::Draw => draw_agent(&mut display, agent, style()),
            Action::Transmit => {
                let before = sink.len();
                sink.extend_from_slice(display.raw_bytes());
                lengths.push(sink.len() - before);
                assert!(display.raw_bytes().iter().any(|b| *b != 0));
            }
            Action::Reset => display.clear(Rgb::black()),
            Action::Stop => {}
        }
        action = streamer.step(Event::Done);
        steps += 1;
    }
    assert_eq!(steps, 1 + 5 * ticks);
    assert_eq!(streamer.frames_sent(), ticks);
    assert_eq!(lengths, vec![32 * 24 * 3; ticks as usize]);
    assert_eq!(sink.len(), ticks as usize * 32 * 24 * 3);
    assert!(display.raw_bytes().iter().all(|b| *b == 0));
    assert_eq!(streamer.step(Event::Done), Action::Stop);
    assert_eq!(streamer.frames_sent(), ticks);
}

#[test]
fn sink_failure_ends_the_run_at_once() {
    let mut streamer = FrameStreamer::new(5);
    for _ in 0..5 {
        streamer.step(Event::Done);
    }
    assert_eq!(streamer.phase(), Phase::Resetting);
    assert_eq!(streamer.frames_sent(), 1);
    for _ in 0..4 {
        streamer.step(Event::Done);
    }
    assert_eq!(streamer.phase(), Phase::Transmitting);
    assert_eq!(streamer.step(Event::SinkFailed), Action::Stop);
    assert_eq!(streamer.phase(), Phase::Terminal);
    assert!(streamer.has_failed());
    assert_eq!(streamer.frames_sent(), 1);
    assert_eq!(streamer.ticks_completed(), 1);
    assert_eq!(streamer.step(Event::Done), Action::Stop);
    assert_eq!(streamer.frames_sent(), 1);
    assert_eq!(streamer.phase(), Phase::Terminal);
}

#[test]
fn one_tick_with_one_still_agent_sends_one_block_on_black() {
    let mut display = FfmpegDisplay::new(1280, 720);
    let mut streamer = FrameStreamer::new(1);
    let agents = vec![Agent::new(Point::new(640, 360), Point::new(0, 0))];
    let mut sink = Vec::new();
    let mut action = streamer.step(Event::Done);
    while action != Action::Stop {
        match action {
            Action::Draw => {
                assert!(agents.iter().all(|a| a.fits(&style())));
                draw_agents(&mut display, &agents, style());
            }
            Action::Transmit => sink.extend_from_slice(display.raw_bytes()),
            Action::Reset => display.clear(Rgb::black()),
            _ => {}
        }
        action = streamer.step(Event::Done);
    }
    assert_eq!(sink.len(), 1280 * 720 * 3);
    assert_eq!(streamer.frames_sent(), 1);
    for y in 0..720usize {
        for x in 0..1280usize {
            let at = (y * 1280 + x) * 3;
            let lit = sink[at..at + 3] != [0, 0, 0];
            let inside = (636..=645).contains(&x) && (356..=365).contains(&y);
            assert_eq!(lit, inside, "at ({x}, {y})");
        }
    }
}

#[test]
fn write_after_draw_sends_the_same_frame() {
    let mut display = FfmpegDisplay::new(1280, 720);
    draw_agent(
        &mut display,
        Agent::new(Point::new(640, 360), Point::new(0, 0)),
        style(),
    );
    let frame = display.raw_bytes().to_vec();
    let mut sink = Vec::new();
    display.write(&mut sink);
    assert_eq!(sink, frame);
    assert_eq!(sink.len(), 1280 * 720 * 3);
    assert!(display.raw_bytes().iter().all(|b| *b == 0));
}

#[test]
fn velocity_line_is_drawn_over_the_body() {
    let mut display = FfmpegDisplay::new(64, 64);
    let agent = Agent::new(Point::new(20, 20), Point::new(30, 0));
    assert!(agent.fits(&style()));
    draw_agent(&mut display, agent, style());
    assert_eq!(display.pixel_at(20, 20), Some(RED));
    assert_eq!(display.pixel_at(23, 20), Some(RED));
    assert_eq!(display.pixel_at(50, 20), Some(RED));
    assert_eq!(display.pixel_at(40, 20), Some(RED));
    assert_eq!(display.pixel_at(16, 16), Some(GREEN));
    assert_eq!(display.pixel_at(25, 25), Some(GREEN));
    assert_eq!(display.pixel_at(20, 24), Some(GREEN));
    assert_eq!(display.pixel_at(51, 20), Some(Rgb::black()));
    assert_eq!(display.pixel_at(26, 25), Some(Rgb::black()));
}

#[test]
fn later_agents_are_drawn_over_earlier_ones() {
    let blue = AgentStyle {
        body: ShapeStyle::new(Some(GREEN), None),
        velocity: StrokeStyle::new(RED, 0),
    };
    let agents = vec![
        Agent::new(Point::new(10, 10), Point::new(0, 0)),
        Agent::new(Point::new(14, 10), Point::new(0, 0)),
    ];
    let mut both = FfmpegDisplay::new(40, 40);
    draw_agents(&mut both, &agents, blue);
    let mut one_by_one = FfmpegDisplay::new(40, 40);
    draw_agent(&mut one_by_one, agents[0], blue);
    draw_agent(&mut one_by_one, agents[1], blue);
    assert_eq!(both.raw_bytes(), one_by_one.raw_bytes());
    assert_eq!(both.pixel_at(6, 10), Some(GREEN));
    assert_eq!(both.pixel_at(19, 10), Some(GREEN));
    assert_eq!(both.pixel_at(20, 10), Some(Rgb::black()));
}

#[test]
fn agent_fits_decides_the_range() {
    let s = style();
    assert!(Agent::new(Point::new(640, 360), Point::new(100, -100)).fits(&s));
    assert!(Agent::new(Point::new(-50, 2000), Point::new(0, 0)).fits(&s));
    assert!(!Agent::new(Point::new(i32::MAX, 0), Point::new(1, 0)).fits(&s));
    assert!(!Agent::new(Point::new(0, i32::MIN), Point::new(0, -1)).fits(&s));
    assert!(!Agent::new(Point::new(0, 0), Point::new(100_000, 0)).fits(&s));
    assert!(!Agent::new(Point::new(0x4000_0001, 0), Point::new(0, 0)).fits(&s));
    let thin = AgentStyle {
        body: s.body,
        velocity: StrokeStyle::new(RED, 0),
    };
    assert!(Agent::new(Point::new(0, 0), Point::new(100_000, 0)).fits(&thin));
}

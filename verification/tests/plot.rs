use realtime_termgraph::scatter_plot::PlotUpdate;
use realtime_termgraph::scheduler::{Scheduler, TickAction, TICK_HZ, TICK_NANOS};
use realtime_termgraph::shared::SharedPlot;
use realtime_termgraph::store::PointStore;
use realtime_termgraph::stream::{DrainStep, StreamEvent, StreamIngestor};
use realtime_termgraph::{Canvas, Point, ScatterPlot};

#[test]
fn point_keeps_its_coordinates() {
    let p = Point::new(3, -4);
    assert_eq!(p.x(), 3);
    assert_eq!(p.y(), -4);
    assert_eq!(p, Point { x: 3, y: -4 });
    assert_eq!(Point::default(), Point::new(0, 0));
    assert_eq!(Point::from((3, -4)), p);
    assert_eq!(<(i64, i64)>::from(&p), (3, -4));
    let q = p;
    assert_eq!(q.clone(), p);
}

#[test]
fn store_only_grows_at_the_end() {
    let mut store = PointStore::new();
    assert!(store.is_empty());
    assert_eq!(store.len(), 0);
    store.append(Point::new(1, 1));
    store.extend(&[Point::new(2, 2), Point::new(3, 3)]);
    let mut batch = vec![Point::new(4, 4)];
    store.append_all(&mut batch);
    assert!(batch.is_empty());
    store.extend(&[]);
    assert_eq!(store.len(), 4);
    assert!(!store.is_empty());
    assert_eq!(
        store.as_slice(),
        &[Point::new(1, 1), Point::new(2, 2), Point::new(3, 3), Point::new(4, 4)]
    );
    let (len, points) = store.snapshot();
    assert_eq!(len, 4);
    assert_eq!(points, store.as_slice());
    store.append(Point::new(5, 5));
    assert_eq!(points.len(), 4);
    assert_eq!(&store.as_slice()[..4], &points[..]);
}

#[test]
fn store_from_points_keeps_their_order() {
    let store = PointStore::from_points(vec![Point::new(9, 8), Point::new(7, 6)]);
    assert_eq!(store.as_slice(), &[Point::new(9, 8), Point::new(7, 6)]);
}

#[test]
fn ingestor_appends_until_the_stream_closes() {
    let mut store = PointStore::new();
    let mut ingestor = StreamIngestor::new(3);
    assert_eq!(ingestor.id(), 3);
    assert!(ingestor.is_open());
    assert_eq!(
        ingestor.on_event(&mut store, StreamEvent::Received(Point::new(1, 2))),
        DrainStep::Continue
    );
    assert_eq!(
        ingestor.on_event(&mut store, StreamEvent::Received(Point::new(3, 4))),
        DrainStep::Continue
    );
    assert_eq!(ingestor.on_event(&mut store, StreamEvent::Closed), DrainStep::Exit);
    assert!(!ingestor.is_open());
    assert_eq!(store.as_slice(), &[Point::new(1, 2), Point::new(3, 4)]);
    // A closed stream delivers nothing more.
    assert_eq!(
        ingestor.on_event(&mut store, StreamEvent::Received(Point::new(5, 6))),
        DrainStep::Exit
    );
    assert_eq!(ingestor.on_event(&mut store, StreamEvent::Closed), DrainStep::Exit);
    assert_eq!(store.len(), 2);
}

#[test]
fn one_stream_keeps_its_order_among_others() {
    let (a, b, c) = (Point::new(1, 0), Point::new(2, 0), Point::new(3, 0));
    let other = [Point::new(-1, 0), Point::new(-2, 0), Point::new(-3, 0), Point::new(-4, 0)];
    // Every way in which the three points can take turns with four others.
    for turns in 0u32..128 {
        if turns.count_ones() != 3 {
            continue;
        }
        let mut store = PointStore::new();
        let mut stream = StreamIngestor::new(0);
        let mut noise = StreamIngestor::new(1);
        let mut mine = [a, b, c].into_iter();
        let mut theirs = other.into_iter();
        for turn in 0..7 {
            if turns & (1 << turn) != 0 {
                stream.on_event(&mut store, StreamEvent::Received(mine.next().unwrap()));
            } else {
                noise.on_event(&mut store, StreamEvent::Received(theirs.next().unwrap()));
            }
        }
        let kept: Vec<Point> = store.as_slice().iter().copied().filter(|p| p.x > 0).collect();
        assert_eq!(kept, vec![a, b, c]);
        assert_eq!(store.len(), 7);
    }
}

#[test]
fn producers_taking_turns_lose_and_double_nothing() {
    let producers = 5usize;
    let each = 40usize;
    let mut store = PointStore::new();
    let mut ingestors: Vec<StreamIngestor> = (0..producers).map(StreamIngestor::new).collect();
    let mut sent = vec![0usize; producers];
    // A fixed but irregular order of turns.
    let mut state = 12345u64;
    while sent.iter().any(|n| *n < each) {
        state = state.wrapping_mul(6364136223846793005).wrapping_add(1442695040888963407);
        let who = (state >> 33) as usize % producers;
        if sent[who] < each {
            let point = Point::new(who as i64, sent[who] as i64);
            assert_eq!(
                ingestors[who].on_event(&mut store, StreamEvent::Received(point)),
                DrainStep::Continue
            );
            sent[who] += 1;
        }
    }
    assert_eq!(store.len(), producers * each);
    for who in 0..producers {
        let of_one: Vec<i64> =
            store.as_slice().iter().filter(|p| p.x == who as i64).map(|p| p.y).collect();
        assert_eq!(of_one, (0..each as i64).collect::<Vec<i64>>());
    }
}

#[test]
fn scheduler_ticks_at_120_hz() {
    assert_eq!(TICK_HZ, 120);
    assert_eq!(TICK_NANOS, 8_333_333);
}

#[test]
fn scheduler_redraws_only_when_the_length_changed() {
    let canvas = Canvas::default();
    let mut store = PointStore::new();
    let mut scheduler = Scheduler::new();
    assert!(!scheduler.is_stopped());

    // Nothing to draw yet.
    assert_eq!(scheduler.tick(&canvas, &store), (TickAction::Skip, vec![]));

    store.append(Point::new(0, 0));
    store.append(Point::new(4, 4));
    let (action, ops) = scheduler.tick(&canvas, &store);
    assert_eq!(action, TickAction::Render);
    assert_eq!(ops, canvas.plot_points(store.as_slice()));

    // The same length at the next tick: no second drawing.
    assert_eq!(scheduler.tick(&canvas, &store), (TickAction::Skip, vec![]));
    assert_eq!(scheduler.tick(&canvas, &store), (TickAction::Skip, vec![]));

    // One more point: everything is drawn again.
    store.append(Point::new(-4, -4));
    let (action, ops) = scheduler.tick(&canvas, &store);
    assert_eq!(action, TickAction::Render);
    assert_eq!(ops, canvas.plot_points(store.as_slice()));
    assert_eq!(ops.len(), 3 * 6);
}

#[test]
fn scheduler_halts_after_the_stop_signal() {
    let canvas = Canvas::default();
    let mut store = PointStore::new();
    let mut scheduler = Scheduler::new();
    store.append(Point::new(0, 0));
    scheduler.stop();
    assert!(scheduler.is_stopped());
    assert_eq!(scheduler.tick(&canvas, &store), (TickAction::Halt, vec![]));
    store.append(Point::new(1, 1));
    assert_eq!(scheduler.tick(&canvas, &store), (TickAction::Halt, vec![]));
}

#[test]
fn plot_starts_empty_and_draws_what_is_added() {
    let canvas = Canvas::default().init(1);
    let mut plot = ScatterPlot::new(canvas);
    assert_eq!(plot.points(), vec![]);
    assert_eq!(plot.canvas().start_row(), 1);

    let PlotUpdate { ops, notify } = plot.add_point(Point::new(0, 0));
    assert_eq!(ops, canvas.plot_point(&Point::new(0, 0)));
    assert!(!notify);

    // A point outside the bounds is kept but not drawn.
    let PlotUpdate { ops, notify } = plot.add_point(Point::new(100, 100));
    assert_eq!(ops, vec![]);
    assert!(!notify);

    let batch = [Point::new(1, 1), Point::new(2, 2)];
    let PlotUpdate { ops, notify } = plot.extend(&batch);
    assert_eq!(ops, canvas.plot_points(&batch));
    assert!(!notify);

    let mut moved = vec![Point::new(3, 3)];
    let PlotUpdate { ops, notify } = plot.append(&mut moved);
    assert_eq!(ops, canvas.plot_point(&Point::new(3, 3)));
    assert!(!notify);
    assert!(moved.is_empty());

    let all = vec![
        Point::new(0, 0),
        Point::new(100, 100),
        Point::new(1, 1),
        Point::new(2, 2),
        Point::new(3, 3),
    ];
    assert_eq!(plot.points(), all);
    assert_eq!(plot.snapshot(), (5, all.clone()));
    assert_eq!(plot.refresh(), canvas.plot_points(&all));
}

#[test]
fn plot_with_points_draws_them_at_refresh() {
    let canvas = Canvas::default();
    let points = vec![Point::new(5, 5), Point::new(-5, -5)];
    let plot = ScatterPlot::new_with_points(canvas, points.clone());
    assert_eq!(plot.points(), points);
    assert_eq!(plot.refresh(), canvas.plot_points(&points));
}

#[test]
fn observed_plot_asks_for_a_notification_on_every_change() {
    let mut plot = ScatterPlot::new_with_callback(Canvas::default());
    assert!(plot.add_point(Point::new(0, 0)).notify);
    assert!(plot.add_point(Point::new(99, 0)).notify);
    assert!(plot.extend(&[]).notify);
    assert!(plot.append(&mut vec![Point::new(1, 1)]).notify);
    assert_eq!(plot.points().len(), 3);
}

#[test]
fn plot_registers_streams_and_takes_their_points() {
    let mut plot = ScatterPlot::new(Canvas::default());
    assert_eq!(plot.stream_count(), 0);
    let mut first = plot.add_stream();
    let mut second = plot.add_stream();
    assert_eq!(first.id(), 0);
    assert_eq!(second.id(), 1);
    assert_eq!(plot.stream_count(), 2);
    let (a, b, c) = (Point::new(1, 1), Point::new(2, 2), Point::new(3, 3));
    assert_eq!(plot.receive(&mut first, StreamEvent::Received(a)), DrainStep::Continue);
    assert_eq!(plot.receive(&mut second, StreamEvent::Received(Point::new(-1, 0))), DrainStep::Continue);
    assert_eq!(plot.receive(&mut first, StreamEvent::Received(b)), DrainStep::Continue);
    assert_eq!(plot.receive(&mut second, StreamEvent::Closed), DrainStep::Exit);
    assert_eq!(plot.receive(&mut first, StreamEvent::Received(c)), DrainStep::Continue);
    assert_eq!(plot.receive(&mut first, StreamEvent::Closed), DrainStep::Exit);
    assert_eq!(plot.points(), vec![a, Point::new(-1, 0), b, c]);
}

#[test]
fn plot_tick_draws_streamed_points_once() {
    let canvas = Canvas::default();
    let mut plot = ScatterPlot::new(canvas);
    let mut scheduler = Scheduler::new();
    let mut stream = plot.add_stream();
    assert_eq!(plot.tick(&mut scheduler), (TickAction::Skip, vec![]));
    plot.receive(&mut stream, StreamEvent::Received(Point::new(2, 3)));
    assert_eq!(
        plot.tick(&mut scheduler),
        (TickAction::Render, canvas.plot_point(&Point::new(2, 3)))
    );
    assert_eq!(plot.tick(&mut scheduler), (TickAction::Skip, vec![]));
    scheduler.stop();
    plot.receive(&mut stream, StreamEvent::Received(Point::new(4, 5)));
    assert_eq!(plot.tick(&mut scheduler), (TickAction::Halt, vec![]));
}

#[test]
fn shared_plot_keeps_one_store_for_all_handles() {
    let canvas = Canvas::default().init(2);
    let plot = SharedPlot::new(canvas);
    let other = plot.share();
    assert_eq!(plot.canvas().start_row(), 2);
    assert_eq!(other.canvas().start_row(), 2);

    let PlotUpdate { ops, notify } = plot.add_point(Point::new(1, 1));
    assert_eq!(ops, canvas.plot_point(&Point::new(1, 1)));
    assert!(!notify);
    let batch = [Point::new(2, 2), Point::new(30, 30)];
    let PlotUpdate { ops, notify } = other.extend(&batch);
    assert_eq!(ops, canvas.plot_points(&batch));
    assert!(!notify);
    let mut moved = vec![Point::new(4, 4)];
    let PlotUpdate { ops, .. } = plot.append(&mut moved);
    assert_eq!(ops, canvas.plot_point(&Point::new(4, 4)));
    assert!(moved.is_empty());

    let all = vec![Point::new(1, 1), Point::new(2, 2), Point::new(30, 30), Point::new(4, 4)];
    assert_eq!(plot.snapshot(), (4, all.clone()));
    assert_eq!(other.snapshot(), (4, all.clone()));
    assert_eq!(other.update_graph(), canvas.plot_points(&all));
}

#[test]
fn shared_plot_starts_with_the_points_given() {
    let points = vec![Point::new(5, 5), Point::new(-5, -5)];
    let plot = SharedPlot::new_with_points(Canvas::default(), points.clone());
    assert_eq!(plot.snapshot(), (2, points));
    let observed = SharedPlot::new_with_callback(Canvas::default());
    assert!(observed.add_point(Point::new(0, 0)).notify);
    assert!(observed.share().extend(&[]).notify);
    assert_eq!(observed.snapshot().0, 1);
}

#[test]
fn shared_plot_drains_streams_and_ticks() {
    let canvas = Canvas::default();
    let plot = SharedPlot::new(canvas);
    let drain = plot.share();
    let redraw = plot.share();
    let mut ingestor = StreamIngestor::new(0);
    let mut scheduler = Scheduler::new();

    assert_eq!(redraw.tick(&mut scheduler), (TickAction::Skip, vec![]));
    assert_eq!(
        drain.receive(&mut ingestor, StreamEvent::Received(Point::new(1, 2))),
        DrainStep::Continue
    );
    assert_eq!(
        drain.receive(&mut ingestor, StreamEvent::Received(Point::new(3, 4))),
        DrainStep::Continue
    );
    let (action, ops) = redraw.tick(&mut scheduler);
    assert_eq!(action, TickAction::Render);
    assert_eq!(ops, canvas.plot_points(&[Point::new(1, 2), Point::new(3, 4)]));
    assert_eq!(redraw.tick(&mut scheduler), (TickAction::Skip, vec![]));

    assert_eq!(drain.receive(&mut ingestor, StreamEvent::Closed), DrainStep::Exit);
    assert!(!ingestor.is_open());
    assert_eq!(
        drain.receive(&mut ingestor, StreamEvent::Received(Point::new(5, 6))),
        DrainStep::Exit
    );
    assert_eq!(plot.snapshot().0, 2);

    scheduler.stop();
    plot.add_point(Point::new(7, 8));
    assert_eq!(redraw.tick(&mut scheduler), (TickAction::Halt, vec![]));
}

#[test]
fn defaults_are_empty() {
    assert!(PointStore::default().is_empty());
    let mut scheduler = Scheduler::default();
    assert!(!scheduler.is_stopped());
    assert_eq!(
        scheduler.tick(&Canvas::default(), &PointStore::default()),
        (TickAction::Skip, vec![])
    );
    let mut plot = ScatterPlot::default();
    assert_eq!(plot.points(), vec![]);
    assert_eq!(plot.canvas().dimensions(), (20, 10));
    assert_eq!(plot.stream_count(), 0);
    assert!(!plot.add_point(Point::new(0, 0)).notify);
}

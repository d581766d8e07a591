use raytracer::image::{primary_layer, ImageLayer, PrimaryImageType};
use raytracer::material::DiffuseLights;
use raytracer::threader::multithreader::{
    all_tiles_done, coordinator_is_done, minimum_progress, next_thread_step, raise_samples_or_refresh,
    remove_indices, update_samples, update_settings, Instructions, Settings, ThreadData, ThreadStep,
};

fn data(samples: i32, id: i32) -> ThreadData<&'static str> {
    ThreadData { settings: Settings { max_depth: 50, samples_per_pixel: samples }, scene: "scene", id }
}

#[test]
fn test_diffuse_light_emit() {
    let mat = DiffuseLights::new((0.7f64, 0.6f64, 0.5f64));
    let emission = mat.emit();
    assert_eq!(emission, (0.7, 0.6, 0.5));
}

#[test]
fn diffuse_light_never_scatters() {
    let mat = DiffuseLights::new(1u8);
    let scattered: Option<u8> = mat.scatter(&(), &());
    assert!(scattered.is_none());
}

#[test]
fn thread_steps() {
    assert_eq!(next_thread_step(Some(Instructions::StopTask), 0, 10), ThreadStep::AwaitInstructions);
    assert_eq!(next_thread_step(Some(Instructions::Terminate), 0, 10), ThreadStep::Terminate);
    assert_eq!(next_thread_step(None, 9, 10), ThreadStep::RequeueTile);
    assert_eq!(next_thread_step(None, 10, 10), ThreadStep::FinishTile);
}

#[test]
fn samples_and_settings_updates() {
    let mut d = data(10, 3);
    update_samples(&mut d, 4);
    assert_eq!(d.settings.samples_per_pixel, 4);
    assert!(raise_samples_or_refresh(&mut d, 2));
    assert_eq!(d.settings.samples_per_pixel, 4);
    assert!(!raise_samples_or_refresh(&mut d, 8));
    assert_eq!(d.settings.samples_per_pixel, 8);
    update_settings(&mut d, data(20, 0));
    assert_eq!(d.id, 4);
    assert_eq!(d.settings.samples_per_pixel, 20);
}

#[test]
fn remove_indices_in_turn() {
    let mut senders = vec!['a', 'b', 'c', 'd'];
    remove_indices(&mut senders, &vec![1]);
    assert_eq!(senders, vec!['a', 'c', 'd']);
    let mut senders = vec!['a', 'b', 'c', 'd'];
    remove_indices(&mut senders, &vec![0, 2]);
    assert_eq!(senders, vec!['b', 'c']);
}

#[test]
fn progress_and_completion() {
    assert_eq!(minimum_progress(&vec![]), i32::MAX);
    assert_eq!(minimum_progress(&vec![4, 2, 7]), 2);
    assert!(all_tiles_done(&vec![5, 6], 5));
    assert!(!all_tiles_done(&vec![5, 4], 5));
    assert!(all_tiles_done(&vec![], 5));
    assert!(coordinator_is_done(10, 10, 1, 2, 2));
    assert!(!coordinator_is_done(10, 10, 0, 2, 2));
    assert!(!coordinator_is_done(10, 10, 1, 1, 2));
}

#[test]
fn primary_layers() {
    assert_eq!(primary_layer(PrimaryImageType::Raster, 0), ImageLayer::Raster);
    assert_eq!(primary_layer(PrimaryImageType::Raytrace, 0), ImageLayer::Outline);
    assert_eq!(primary_layer(PrimaryImageType::Raytrace, 3), ImageLayer::Raytrace);
}

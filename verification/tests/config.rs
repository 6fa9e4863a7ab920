use mandelbrot::config::{ConfigError, PlaneWindow, RenderConfig};

fn window() -> PlaneWindow {
    PlaneWindow { re_min: -2, re_max: 1, im_min: -1, im_max: 1 }
}

#[test]
fn standard_picture_has_the_fixed_dimensions() {
    let config = RenderConfig::standard();
    assert_eq!(config.width, 8000);
    assert_eq!(config.height, 4571);
    assert_eq!(config.max_iterations, 1000);
    assert_eq!(config.thread_count, 20);
    assert_eq!(config.window, window());
}

#[test]
fn standard_picture_is_accepted() {
    let config = RenderConfig::standard();
    assert_eq!(config.check(), Ok(()));
    assert_eq!(config.width % config.thread_count, 0);
}

#[test]
fn standard_picture_sizes() {
    let config = RenderConfig::standard();
    assert_eq!(config.pixel_count(), 8000 * 4571);
    assert_eq!(config.buffer_len(), 8000 * 4571 * 3);
    assert_eq!(config.buffer_len(), 109_704_000);
}

#[test]
fn new_builds_what_it_is_given() {
    let made = RenderConfig::new(12, 5, 30, 4, window());
    assert_eq!(
        made,
        Ok(RenderConfig { width: 12, height: 5, max_iterations: 30, thread_count: 4, window: window() })
    );
}

#[test]
fn no_threads_is_refused() {
    assert_eq!(RenderConfig::new(12, 5, 30, 0, window()), Err(ConfigError::NoThreads));
}

#[test]
fn uneven_bands_are_refused() {
    assert_eq!(RenderConfig::new(8000, 4571, 1000, 21, window()), Err(ConfigError::UnevenBands));
    assert_eq!(RenderConfig::new(10, 10, 5, 3, window()), Err(ConfigError::UnevenBands));
    assert_eq!(RenderConfig::new(3, 10, 5, 4, window()), Err(ConfigError::UnevenBands));
}

#[test]
fn no_iterations_is_refused() {
    assert_eq!(RenderConfig::new(12, 5, 0, 4, window()), Err(ConfigError::NoIterations));
}

#[test]
fn too_large_is_refused() {
    assert_eq!(
        RenderConfig::new(u32::MAX, u32::MAX, 1, 1, window()),
        Err(ConfigError::TooLarge)
    );
}

#[test]
fn largest_buffer_is_accepted_and_one_more_row_is_not() {
    // The most pixels whose three bytes each fit in one buffer.
    let most = (isize::MAX as u64) / 3;
    let (columns, rows) = if most >= u32::MAX as u64 {
        (u32::MAX, (most / (u32::MAX as u64)) as u32)
    } else {
        (1, most as u32)
    };
    let fits = RenderConfig::new(columns, rows, 1, 1, window());
    assert_eq!(fits.map(|config| (config.width, config.height)), Ok((columns, rows)));
    assert_eq!(RenderConfig::new(columns, rows + 1, 1, 1, window()), Err(ConfigError::TooLarge));
}

#[test]
fn reasons_come_in_a_fixed_order() {
    assert_eq!(RenderConfig::new(7, 5, 0, 0, window()), Err(ConfigError::NoThreads));
    assert_eq!(RenderConfig::new(7, 5, 0, 2, window()), Err(ConfigError::UnevenBands));
    assert_eq!(RenderConfig::new(u32::MAX, u32::MAX, 0, 1, window()), Err(ConfigError::NoIterations));
}

#[test]
fn check_agrees_with_new() {
    let asked = RenderConfig { width: 9, height: 2, max_iterations: 4, thread_count: 2, window: window() };
    assert_eq!(asked.check(), Err(ConfigError::UnevenBands));
    let fine = RenderConfig { width: 8, height: 2, max_iterations: 4, thread_count: 2, window: window() };
    assert_eq!(fine.check(), Ok(()));
    assert_eq!(RenderConfig::new(8, 2, 4, 2, window()), Ok(fine));
}

#[test]
fn empty_image_is_accepted() {
    let flat = RenderConfig::new(0, 7, 4, 3, window());
    assert!(flat.is_ok());
    let config = flat.unwrap();
    assert_eq!(config.pixel_count(), 0);
    assert_eq!(config.buffer_len(), 0);
    let thin = RenderConfig::new(6, 0, 4, 3, window()).unwrap();
    assert_eq!(thin.buffer_len(), 0);
}

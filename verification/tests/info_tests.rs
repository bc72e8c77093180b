use atlasfetch::info::{cpu_model_from, gpu_model_from, gpu_without_brands, shorten_cpu, shorten_gpu};

#[test]
fn test_shorten_cpu() {
    let cases = vec![
        ("AMD Ryzen 3 2200G with Radeon Vega Graphics", "AMD Ryzen 3 2200G"),
        ("AMD Ryzen 5 5600X 6-Core Processor", "AMD Ryzen 5 5600X"),
        ("AMD Ryzen 7 5800X3D", "AMD Ryzen 7 5800X3D"),
        ("AMD EPYC 7551P 32-Core Processor", "AMD EPYC 7551P"),
    ];
    for (input, expected) in cases {
        assert_eq!(shorten_cpu(input), expected, "CPU: {}", input);
    }
}

#[test]
fn test_shorten_gpu() {
    let cases = vec![
        ("NVIDIA GeForce RTX 3060", "NVIDIA RTX 3060"),
        ("NVIDIA GeForce GTX 1060 6GB", "NVIDIA GTX 1060 6GB"),
        ("AMD Radeon RX 570 Series", "AMD RX 570"),
        ("AMD Radeon RX 7800 XT", "AMD RX 7800 XT"),
        ("Intel UHD Graphics 630", "Intel UHD Graphics 630"),
    ];
    for (input, expected) in cases {
        assert_eq!(shorten_gpu(input), expected, "GPU: {}", input);
    }
}

#[test]
fn cpu_model_after_suffixes() {
    assert_eq!(cpu_model_from("  AMD Ryzen 5 5600X 6-Core Processor ", "AMD Ryzen 5 5600X "), "AMD Ryzen 5 5600X");
    assert_eq!(cpu_model_from("AMD Ryzen 3 2200G with Radeon Vega Graphics", "ignored"), "AMD Ryzen 3 2200G");
    assert_eq!(cpu_model_from("Intel Core i7", "Intel Core i7"), "Intel Core i7");
}

#[test]
fn gpu_model_steps() {
    assert_eq!(gpu_without_brands(" AMD Radeon RX 570 Series "), "AMD RX 570 Series");
    assert_eq!(gpu_without_brands("NVIDIA GeForce GeForce RTX"), "NVIDIA RTX");
    assert_eq!(gpu_model_from("  AMD RX 570 "), "AMD RX 570");
}

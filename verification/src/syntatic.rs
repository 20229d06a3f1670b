pub mod syntatic_analizer;
